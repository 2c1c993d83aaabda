//! Mouse button bits.

use vstd::prelude::*;

verus! {

pub const LEFT: u8 = 1;

pub const RIGHT: u8 = 2;

pub const MIDDLE: u8 = 4;

pub const BACK: u8 = 8;

pub const FORWARD: u8 = 16;

/// The bits of the buttons, in the order of the report.
pub proof fn law_each_button_has_its_bit()
    ensures
        LEFT == 1,
        RIGHT == 2,
        MIDDLE == 4,
        BACK == 8,
        FORWARD == 16,
{
}

} // verus!
