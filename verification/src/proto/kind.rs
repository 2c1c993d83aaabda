//! Message kinds. Control messages start at 0x10 so the hot path stays in the
//! low numbers and a reader can tell the classes apart at a glance.

use vstd::prelude::*;

verus! {

/// Controller -> dongle: raw pointer motion. The dongle routes it.
pub const MOUSE: u8 = 0x01;

/// Controller -> dongle: keyboard state. Absolute, like mouse buttons: the
/// full modifier byte and the full set of held keys, so a dropped message
/// cannot leave a key stuck down on a machine nobody is looking at.
pub const KEY: u8 = 0x02;

pub const PING: u8 = 0x04;

pub const PONG: u8 = 0x05;

/// Dongle -> controller: the pointer now belongs to this node; payload is
/// a single node id, 0 meaning the controller's own screen.
///
/// Required, not informational. Since the dongle owns the layout, the
/// controller cannot otherwise tell whether to swallow local input and hide
/// its cursor.
pub const FOCUS: u8 = 0x06;

/// Controller -> dongle: send me the stored layout.
pub const GET_CONFIG: u8 = 0x10;

/// Either direction: a full layout.
pub const CONFIG: u8 = 0x11;

/// Controller -> dongle: replace the stored layout and persist it.
pub const SET_CONFIG: u8 = 0x12;

/// Controller -> dongle: report bonded targets and connection state.
pub const GET_STATUS: u8 = 0x13;

/// Dongle -> controller: bonded targets and connection state.
pub const STATUS: u8 = 0x14;

/// Dongle -> controller: result of a request.
pub const ACK: u8 = 0x15;

/// Controller -> dongle: report the wireless control link's state.
pub const GET_WIRELESS: u8 = 0x16;

/// Dongle -> controller: the wireless control link's state.
pub const WIRELESS: u8 = 0x17;

/// Controller -> dongle: open or close the pairing window, or forget the
/// controller. Refused when it arrives over the wireless link itself:
/// authorising a new controller takes physical access.
pub const SET_WIRELESS: u8 = 0x18;

/// Controller -> dongle: report the running firmware.
pub const GET_FIRMWARE: u8 = 0x19;

/// Dongle -> controller: the running firmware.
pub const FIRMWARE: u8 = 0x1A;

/// Controller -> dongle: start a firmware update.
pub const OTA_BEGIN: u8 = 0x1B;

/// Controller -> dongle: a run of image bytes at a given offset.
pub const OTA_DATA: u8 = 0x1C;

/// Dongle -> controller: how much of the image it has.
pub const OTA_STATUS: u8 = 0x1D;

/// Controller -> dongle: the whole image was sent; check it and reboot.
pub const OTA_END: u8 = 0x1E;

/// Controller -> dongle: drop the update in progress.
pub const OTA_ABORT: u8 = 0x1F;

/// Whether a kind belongs to the control messages rather than the hot path.
pub open spec fn is_control(kind: u8) -> bool {
    kind >= 0x10
}

/// Hot-path kinds stay below 0x10 and control kinds at or above it, so a
/// reader can tell the two classes apart by magnitude.
pub proof fn law_control_kinds_do_not_collide_with_hot_path()
    ensures
        forall|k: u8|
            k == MOUSE || k == KEY || k == PING || k == PONG || k == FOCUS ==> !is_control(k),
        forall|k: u8|
            k == GET_CONFIG || k == CONFIG || k == SET_CONFIG || k == GET_STATUS || k == STATUS || k
                == ACK || k == GET_WIRELESS || k == WIRELESS || k == SET_WIRELESS ==> is_control(k),
        forall|k: u8|
            k == GET_FIRMWARE || k == FIRMWARE || k == OTA_BEGIN || k == OTA_DATA || k == OTA_STATUS
                || k == OTA_END || k == OTA_ABORT ==> is_control(k),
{
}

/// The numbers of the kinds.
pub proof fn law_each_kind_has_its_number()
    ensures
        MOUSE == 1,
        KEY == 2,
        PING == 4,
        PONG == 5,
        FOCUS == 6,
        GET_CONFIG == 0x10,
        CONFIG == 0x11,
        SET_CONFIG == 0x12,
        GET_STATUS == 0x13,
        STATUS == 0x14,
        ACK == 0x15,
        GET_WIRELESS == 0x16,
        WIRELESS == 0x17,
        SET_WIRELESS == 0x18,
        GET_FIRMWARE == 0x19,
        FIRMWARE == 0x1A,
        OTA_BEGIN == 0x1B,
        OTA_DATA == 0x1C,
        OTA_STATUS == 0x1D,
        OTA_END == 0x1E,
        OTA_ABORT == 0x1F,
{
}

} // verus!
