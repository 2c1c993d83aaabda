//! macOS virtual keycodes to HID usage codes.
//!
//! Both are *positional*: they name a physical key, not the character it
//! produces, so this is a fixed table rather than anything layout-dependent.
//! That is also the reason arbitrary text cannot be forwarded faithfully: we
//! send the key that was pressed, and the target decides what it means under
//! its own keymap. A Dvorak host driving a QWERTY target types QWERTY.

use vstd::prelude::*;

verus! {

/// The macOS virtual keycodes in the order of their HID usages, which start at
/// 4 with the letters from A on. A -1 stands for a usage that no key has.
pub open spec fn keys_in_usage_order() -> Seq<int> {
    seq![
        // letters A to Z
        0x00, 0x0B, 0x08, 0x02, 0x0E, 0x03, 0x05, 0x04, 0x22, 0x26, 0x28, 0x25, 0x2E, 0x2D, 0x1F, 0x23, 0x0C, 0x0F, 0x01, 0x11, 0x20, 0x09, 0x0D, 0x07, 0x10, 0x06,
        // digits 1 to 9, then 0
        0x12, 0x13, 0x14, 0x15, 0x17, 0x16, 0x1A, 0x1C, 0x19, 0x1D,
        // Return, Escape, Backspace, Tab, Space
        0x24, 0x35, 0x33, 0x30, 0x31,
        // Minus, Equal, both brackets, Backslash
        0x1B, 0x18, 0x21, 0x1E, 0x2A,
        // (none), Semicolon, Quote, Grave, Comma, Period, Slash, Caps Lock
        -1, 0x29, 0x27, 0x32, 0x2B, 0x2F, 0x2C, 0x39,
        // F1 to F12
        0x7A, 0x78, 0x63, 0x76, 0x60, 0x61, 0x62, 0x64, 0x65, 0x6D, 0x67, 0x6F,
        // (none, three times), Insert, Home, Page Up, Forward Delete, End, Page Down
        -1, -1, -1, 0x72, 0x73, 0x74, 0x75, 0x77, 0x79,
        // Right, Left, Down, Up
        0x7C, 0x7B, 0x7D, 0x7E,
        // keypad: Clear, divide, multiply, minus, plus, enter
        0x47, 0x4B, 0x43, 0x4E, 0x45, 0x4C,
        // keypad 1 to 9, then 0 and period
        0x53, 0x54, 0x55, 0x56, 0x57, 0x58, 0x59, 0x5B, 0x5C, 0x52, 0x41,
    ]
}

/// `u` is the HID usage of the key.
pub open spec fn is_usage_of(u: u8, vk: i64) -> bool {
    &&& 0x04 <= u <= 0x63
    &&& vk >= 0
    &&& keys_in_usage_order()[u - 4] == vk
}

/// HID usage code for a macOS virtual keycode, or `None` for keys we do not
/// forward.
pub fn hid_usage(vk: i64) -> (r: Option<u8>)
    ensures
        match r {
            Some(u) => is_usage_of(u, vk),
            None => forall|u: u8| !is_usage_of(u, vk),
        },
{
    match vk {
        0x00 => Some(0x04),  // A
        0x0B => Some(0x05),  // B
        0x08 => Some(0x06),  // C
        0x02 => Some(0x07),  // D
        0x0E => Some(0x08),  // E
        0x03 => Some(0x09),  // F
        0x05 => Some(0x0A),  // G
        0x04 => Some(0x0B),  // H
        0x22 => Some(0x0C),  // I
        0x26 => Some(0x0D),  // J
        0x28 => Some(0x0E),  // K
        0x25 => Some(0x0F),  // L
        0x2E => Some(0x10),  // M
        0x2D => Some(0x11),  // N
        0x1F => Some(0x12),  // O
        0x23 => Some(0x13),  // P
        0x0C => Some(0x14),  // Q
        0x0F => Some(0x15),  // R
        0x01 => Some(0x16),  // S
        0x11 => Some(0x17),  // T
        0x20 => Some(0x18),  // U
        0x09 => Some(0x19),  // V
        0x0D => Some(0x1A),  // W
        0x07 => Some(0x1B),  // X
        0x10 => Some(0x1C),  // Y
        0x06 => Some(0x1D),  // Z
        0x12 => Some(0x1E),  // 1
        0x13 => Some(0x1F),  // 2
        0x14 => Some(0x20),  // 3
        0x15 => Some(0x21),  // 4
        0x17 => Some(0x22),  // 5
        0x16 => Some(0x23),  // 6
        0x1A => Some(0x24),  // 7
        0x1C => Some(0x25),  // 8
        0x19 => Some(0x26),  // 9
        0x1D => Some(0x27),  // 0
        0x24 => Some(0x28),  // Return
        0x35 => Some(0x29),  // Escape
        0x33 => Some(0x2A),  // Delete (Backspace)
        0x30 => Some(0x2B),  // Tab
        0x31 => Some(0x2C),  // Space
        0x1B => Some(0x2D),  // Minus
        0x18 => Some(0x2E),  // Equal
        0x21 => Some(0x2F),  // Left bracket
        0x1E => Some(0x30),  // Right bracket
        0x2A => Some(0x31),  // Backslash
        0x29 => Some(0x33),  // Semicolon
        0x27 => Some(0x34),  // Quote
        0x32 => Some(0x35),  // Grave
        0x2B => Some(0x36),  // Comma
        0x2F => Some(0x37),  // Period
        0x2C => Some(0x38),  // Slash
        0x39 => Some(0x39),  // Caps Lock
        0x7A => Some(0x3A),  // F1
        0x78 => Some(0x3B),  // F2
        0x63 => Some(0x3C),  // F3
        0x76 => Some(0x3D),  // F4
        0x60 => Some(0x3E),  // F5
        0x61 => Some(0x3F),  // F6
        0x62 => Some(0x40),  // F7
        0x64 => Some(0x41),  // F8
        0x65 => Some(0x42),  // F9
        0x6D => Some(0x43),  // F10
        0x67 => Some(0x44),  // F11
        0x6F => Some(0x45),  // F12
        0x72 => Some(0x49),  // Insert / Help
        0x73 => Some(0x4A),  // Home
        0x74 => Some(0x4B),  // Page Up
        0x75 => Some(0x4C),  // Forward Delete
        0x77 => Some(0x4D),  // End
        0x79 => Some(0x4E),  // Page Down
        0x7C => Some(0x4F),  // Right arrow
        0x7B => Some(0x50),  // Left arrow
        0x7D => Some(0x51),  // Down arrow
        0x7E => Some(0x52),  // Up arrow
        0x47 => Some(0x53),  // Clear / Num Lock
        0x4B => Some(0x54),  // Keypad divide
        0x43 => Some(0x55),  // Keypad multiply
        0x4E => Some(0x56),  // Keypad minus
        0x45 => Some(0x57),  // Keypad plus
        0x4C => Some(0x58),  // Keypad enter
        0x53 => Some(0x59),  // Keypad 1
        0x54 => Some(0x5A),  // Keypad 2
        0x55 => Some(0x5B),  // Keypad 3
        0x56 => Some(0x5C),  // Keypad 4
        0x57 => Some(0x5D),  // Keypad 5
        0x58 => Some(0x5E),  // Keypad 6
        0x59 => Some(0x5F),  // Keypad 7
        0x5B => Some(0x60),  // Keypad 8
        0x5C => Some(0x61),  // Keypad 9
        0x52 => Some(0x62),  // Keypad 0
        0x41 => Some(0x63),  // Keypad period
        // Modifiers are not sent as keycodes; they travel in the modifier byte.
        // They are left out with everything unknown.
        _ => None,
    }
}

/// A key has one usage and a usage has one key.
pub proof fn law_the_table_has_no_duplicates(a: u8, b: u8, x: i64, y: i64)
    ensures
        is_usage_of(a, x) && is_usage_of(b, x) ==> a == b,
        is_usage_of(a, x) && is_usage_of(a, y) ==> x == y,
{
}

/// Modifiers have no usage: they belong in the modifier byte, and sending both
/// would leave some hosts with a stuck key.
pub proof fn law_modifiers_are_excluded(u: u8, vk: i64)
    requires
        vk == 0x37 || vk == 0x36 || vk == 0x38 || vk == 0x3C || vk == 0x3A || vk == 0x3D || vk
            == 0x3B || vk == 0x3E,
    ensures
        !is_usage_of(u, vk),
{
}

/// The letters, in the order of the alphabet, wherever they lie on the keyboard.
pub proof fn law_letters()
    ensures
        is_usage_of(0x04, 0x00),  // A
        is_usage_of(0x05, 0x0B),  // B
        is_usage_of(0x06, 0x08),  // C
        is_usage_of(0x07, 0x02),  // D
        is_usage_of(0x08, 0x0E),  // E
        is_usage_of(0x09, 0x03),  // F
        is_usage_of(0x0A, 0x05),  // G
        is_usage_of(0x0B, 0x04),  // H
        is_usage_of(0x0C, 0x22),  // I
        is_usage_of(0x0D, 0x26),  // J
        is_usage_of(0x0E, 0x28),  // K
        is_usage_of(0x0F, 0x25),  // L
        is_usage_of(0x10, 0x2E),  // M
        is_usage_of(0x11, 0x2D),  // N
        is_usage_of(0x12, 0x1F),  // O
        is_usage_of(0x13, 0x23),  // P
        is_usage_of(0x14, 0x0C),  // Q
        is_usage_of(0x15, 0x0F),  // R
        is_usage_of(0x16, 0x01),  // S
        is_usage_of(0x17, 0x11),  // T
        is_usage_of(0x18, 0x20),  // U
        is_usage_of(0x19, 0x09),  // V
        is_usage_of(0x1A, 0x0D),  // W
        is_usage_of(0x1B, 0x07),  // X
        is_usage_of(0x1C, 0x10),  // Y
        is_usage_of(0x1D, 0x06),  // Z
{
}

/// The digits, the keys for editing and for punctuation, and Caps Lock.
pub proof fn law_digits_and_editing_keys()
    ensures
        is_usage_of(0x1E, 0x12),  // 1
        is_usage_of(0x1F, 0x13),  // 2
        is_usage_of(0x20, 0x14),  // 3
        is_usage_of(0x21, 0x15),  // 4
        is_usage_of(0x22, 0x17),  // 5
        is_usage_of(0x23, 0x16),  // 6
        is_usage_of(0x24, 0x1A),  // 7
        is_usage_of(0x25, 0x1C),  // 8
        is_usage_of(0x26, 0x19),  // 9
        is_usage_of(0x27, 0x1D),  // 0
        is_usage_of(0x28, 0x24),  // Return
        is_usage_of(0x29, 0x35),  // Escape
        is_usage_of(0x2A, 0x33),  // Delete (Backspace)
        is_usage_of(0x2B, 0x30),  // Tab
        is_usage_of(0x2C, 0x31),  // Space
        is_usage_of(0x2D, 0x1B),  // Minus
        is_usage_of(0x2E, 0x18),  // Equal
        is_usage_of(0x2F, 0x21),  // Left bracket
        is_usage_of(0x30, 0x1E),  // Right bracket
        is_usage_of(0x31, 0x2A),  // Backslash
        is_usage_of(0x33, 0x29),  // Semicolon
        is_usage_of(0x34, 0x27),  // Quote
        is_usage_of(0x35, 0x32),  // Grave
        is_usage_of(0x36, 0x2B),  // Comma
        is_usage_of(0x37, 0x2F),  // Period
        is_usage_of(0x38, 0x2C),  // Slash
        is_usage_of(0x39, 0x39),  // Caps Lock
{
}

/// The function keys, the block above the arrows, and the arrows.
pub proof fn law_function_and_movement_keys()
    ensures
        is_usage_of(0x3A, 0x7A),  // F1
        is_usage_of(0x3B, 0x78),  // F2
        is_usage_of(0x3C, 0x63),  // F3
        is_usage_of(0x3D, 0x76),  // F4
        is_usage_of(0x3E, 0x60),  // F5
        is_usage_of(0x3F, 0x61),  // F6
        is_usage_of(0x40, 0x62),  // F7
        is_usage_of(0x41, 0x64),  // F8
        is_usage_of(0x42, 0x65),  // F9
        is_usage_of(0x43, 0x6D),  // F10
        is_usage_of(0x44, 0x67),  // F11
        is_usage_of(0x45, 0x6F),  // F12
        is_usage_of(0x49, 0x72),  // Insert / Help
        is_usage_of(0x4A, 0x73),  // Home
        is_usage_of(0x4B, 0x74),  // Page Up
        is_usage_of(0x4C, 0x75),  // Forward Delete
        is_usage_of(0x4D, 0x77),  // End
        is_usage_of(0x4E, 0x79),  // Page Down
        is_usage_of(0x4F, 0x7C),  // Right arrow
        is_usage_of(0x50, 0x7B),  // Left arrow
        is_usage_of(0x51, 0x7D),  // Down arrow
        is_usage_of(0x52, 0x7E),  // Up arrow
{
}

/// The keypad.
pub proof fn law_keypad()
    ensures
        is_usage_of(0x53, 0x47),  // Clear / Num Lock
        is_usage_of(0x54, 0x4B),  // Keypad divide
        is_usage_of(0x55, 0x43),  // Keypad multiply
        is_usage_of(0x56, 0x4E),  // Keypad minus
        is_usage_of(0x57, 0x45),  // Keypad plus
        is_usage_of(0x58, 0x4C),  // Keypad enter
        is_usage_of(0x59, 0x53),  // Keypad 1
        is_usage_of(0x5A, 0x54),  // Keypad 2
        is_usage_of(0x5B, 0x55),  // Keypad 3
        is_usage_of(0x5C, 0x56),  // Keypad 4
        is_usage_of(0x5D, 0x57),  // Keypad 5
        is_usage_of(0x5E, 0x58),  // Keypad 6
        is_usage_of(0x5F, 0x59),  // Keypad 7
        is_usage_of(0x60, 0x5B),  // Keypad 8
        is_usage_of(0x61, 0x5C),  // Keypad 9
        is_usage_of(0x62, 0x52),  // Keypad 0
        is_usage_of(0x63, 0x41),  // Keypad period
{
}

/// No other key has a usage: a usage is from 4 to 99 but for 50 and 70 to 72, and
/// each of those belongs to one of the keys above.
pub proof fn law_no_other_key_is_forwarded(u: u8, vk: i64)
    requires
        is_usage_of(u, vk),
    ensures
        4 <= u <= 99 && u != 50 && !(70 <= u <= 72),
        0 <= vk <= 0x7E,
{
}

} // verus!
