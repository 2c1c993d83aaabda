//! Mouse behaviour flags, per target.

use vstd::prelude::*;

verus! {

pub const INVERT_X: u8 = 1;

pub const INVERT_Y: u8 = 2;

/// Reverse wheel direction, for a target whose own setting disagrees with
/// the controller's.
pub const NATURAL_SCROLL: u8 = 4;

pub const SWAP_BUTTONS: u8 = 8;

/// Each flag is a bit of its own.
pub proof fn law_each_flag_has_its_bit()
    ensures
        INVERT_X == 1,
        INVERT_Y == 2,
        NATURAL_SCROLL == 4,
        SWAP_BUTTONS == 8,
{
}

} // verus!
