//! Wire format between the controller and the dongle.
//!
//! # Shape
//!
//! An 8-byte header followed by a length-prefixed payload.
//!
//! ```text
//! 0       magic 0x53
//! 1       version
//! 2       kind
//! 3       flags (reserved)
//! 4..6    seq (u16)
//! 6..8    payload length (u16)
//! 8..     payload
//! ```
//!
//! A mouse update carries an 8-byte payload, so the hot path is exactly 16
//! bytes on the wire, and config messages can still be long.
//!
//! # The controller does not route
//!
//! The layout lives on the dongle, so the controller sends *raw* pointer motion
//! and has no opinion about which machine it lands on. That is what lets the
//! same firmware run standalone with no controller at all.
//!
//! # Buttons are absolute
//!
//! BLE does not retransmit. If a release were its own event and its frame were
//! dropped, a button would be stuck down on a machine the user is not sitting
//! at. Every update carries the full button bitmask, so the next one repairs
//! the state. Motion is a delta, because a dropped motion frame costs a few
//! pixels and self-corrects.

use vstd::prelude::*;

pub mod ack;
pub mod button;
pub mod config_wire;
pub mod edge;
pub mod gate;
pub mod header;
pub mod key;
pub mod kind;
pub mod modifier;
pub mod mouse;
pub mod mouse_flag;
pub mod ota;
pub mod profile;
pub mod screen;
pub mod slot;
pub mod wireless;
pub mod wireless_op;

pub use crate::proto::edge::Edge;
pub use crate::proto::gate::SeqGate;
pub use crate::proto::gate::SEQ_RESYNC_AFTER;
pub use crate::proto::header::DecodeError;
pub use crate::proto::header::Header;
pub use crate::proto::key::KeyState;
pub use crate::proto::mouse::MouseState;
pub use crate::proto::ota::FirmwareInfo;
pub use crate::proto::ota::OtaBegin;
pub use crate::proto::ota::OtaChunk;
pub use crate::proto::ota::OtaStatus;
pub use crate::proto::ota::OTA_CHUNK_MAX;
pub use crate::proto::profile::InputProfile;
pub use crate::proto::screen::ScreenWire;
pub use crate::proto::slot::SlotStatus;
pub use crate::proto::wireless::WirelessState;

verus! {

pub const MAGIC: u8 = 0x53;

pub const VERSION: u8 = 3;

/// Bytes before the payload.
pub const HEADER_LEN: usize = 8;

/// Largest payload we will accept. Bounds the dongle's reassembly buffer, which
/// has no allocator to grow one.
pub const MAX_PAYLOAD: usize = 512;

/// One local screen plus up to four bonded targets.
pub const MAX_SCREENS: usize = 5;

/// Screen names are fixed-width so neither side needs an allocator.
pub const NAME_LEN: usize = 16;

/// Bytes one screen occupies on the wire: node, name, geometry, peer address,
/// input profile.
pub const SCREEN_WIRE_LEN: usize = 1 + 16 + 16 + 6 + 12;

/// Bytes the largest legal config occupies: a count byte, then every screen.
pub const MAX_CONFIG_PAYLOAD: usize = 1 + 5 * 51;

/// How many controllers the dongle will authorise at once.
///
/// More than one because a laptop is not the only thing that might drive this:
/// a phone should be able to take over without the laptop having to be
/// forgotten and re-paired to get it back. Exactly one drives at a time.
pub const MAX_CONTROLLERS: usize = 4;

/// The largest legal config fits in one payload.
pub proof fn law_config_fits_payload()
    ensures
        SCREEN_WIRE_LEN == 1 + NAME_LEN + 16 + 6 + InputProfile::WIRE_LEN,
        MAX_CONFIG_PAYLOAD == 1 + MAX_SCREENS * SCREEN_WIRE_LEN,
        MAX_CONFIG_PAYLOAD <= MAX_PAYLOAD,
{
}

/// The hot path is sixteen bytes on the wire.
pub proof fn law_mouse_message_is_sixteen_bytes()
    ensures
        HEADER_LEN + MouseState::WIRE_LEN == 16,
{
}

} // verus!
