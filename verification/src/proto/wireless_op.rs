//! Operations carried by a SET_WIRELESS message.

use vstd::prelude::*;

verus! {

/// Forget the pinned controller and close any window.
pub const FORGET: u8 = 0;

/// Open the pairing window; second byte is how many seconds.
pub const PAIR: u8 = 1;

/// The codes of the operations.
pub proof fn law_each_operation_has_its_code()
    ensures
        FORGET == 0,
        PAIR == 1,
{
}

} // verus!
