//! HID keyboard modifier bits, in the order the boot-protocol report uses them.

use vstd::prelude::*;

verus! {

pub const LCTRL: u8 = 1;

pub const LSHIFT: u8 = 2;

pub const LALT: u8 = 4;

pub const LGUI: u8 = 8;

pub const RCTRL: u8 = 16;

pub const RSHIFT: u8 = 32;

pub const RALT: u8 = 64;

pub const RGUI: u8 = 128;

/// The bits of the modifiers, in the order of the report: left, then right.
pub proof fn law_each_modifier_has_its_bit()
    ensures
        LCTRL == 1,
        LSHIFT == 2,
        LALT == 4,
        LGUI == 8,
        RCTRL == 16,
        RSHIFT == 32,
        RALT == 64,
        RGUI == 128,
{
}

} // verus!
