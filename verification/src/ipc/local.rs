//! Daemon-local message kinds, above the dongle's range so a forwarded request
//! can never be confused with one the daemon answers itself.

use vstd::prelude::*;

verus! {

/// Tray -> daemon: which node holds the pointer, and is the link up.
pub const GET_DAEMON_STATUS: u8 = 0x40;

/// Daemon -> tray: `[focus_node, link_ok]`.
pub const DAEMON_STATUS: u8 = 0x41;

/// The numbers of the kinds.
pub proof fn law_each_kind_has_its_number()
    ensures
        GET_DAEMON_STATUS == 0x40,
        DAEMON_STATUS == 0x41,
{
}

} // verus!
