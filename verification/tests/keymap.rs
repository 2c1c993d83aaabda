//! Keycodes.

use scurry::capture::keymap::hid_usage;

#[test]
fn letters_and_digits_map_to_the_right_usages() {
    assert_eq!(hid_usage(0x00), Some(0x04), "A");
    assert_eq!(hid_usage(0x06), Some(0x1D), "Z");
    // HID orders digits 1..9 then 0, which is the easy one to get wrong.
    assert_eq!(hid_usage(0x12), Some(0x1E), "1");
    assert_eq!(hid_usage(0x1D), Some(0x27), "0");
}

#[test]
fn modifiers_are_excluded() {
    // They belong in the modifier byte. Emitting them as keycodes would
    // send both, and some hosts treat that as a stuck key.
    for vk in [0x37, 0x36, 0x38, 0x3C, 0x3A, 0x3D, 0x3B, 0x3E] {
        assert_eq!(hid_usage(vk), None, "vk {vk:#04x} must not be a keycode");
    }
}

#[test]
fn the_table_has_no_duplicate_usages() {
    // A duplicate would mean two physical keys producing the same code,
    // which is invisible until someone presses the wrong one.
    let mut seen = std::collections::HashMap::new();
    for vk in 0..0x80i64 {
        if let Some(u) = hid_usage(vk) {
            if let Some(prev) = seen.insert(u, vk) {
                panic!("usage {u:#04x} claimed by both {prev:#04x} and {vk:#04x}");
            }
        }
    }
}

#[test]
fn unknown_keys_are_dropped_not_guessed() {
    assert_eq!(hid_usage(0x7F), None);
    assert_eq!(hid_usage(999), None);
}
