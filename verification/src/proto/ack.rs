//! Result codes carried by an ACK message.

use vstd::prelude::*;

verus! {

pub const OK: u8 = 0;

pub const BAD_REQUEST: u8 = 1;

pub const INVALID_LAYOUT: u8 = 2;

pub const STORAGE_FAILED: u8 = 3;

/// The request needs the cable.
pub const NOT_PERMITTED: u8 = 4;

/// A firmware update was refused or could not be written.
pub const OTA_FAILED: u8 = 5;

/// The codes, in order.
pub proof fn law_each_result_has_its_code()
    ensures
        OK == 0,
        BAD_REQUEST == 1,
        INVALID_LAYOUT == 2,
        STORAGE_FAILED == 3,
        NOT_PERMITTED == 4,
        OTA_FAILED == 5,
{
}

} // verus!
