//! Share one mouse and keyboard across machines.
//!
//! The pointer crosses a screen edge and lands on the next machine. The
//! controller captures local input and sends it to a dongle, the dongle owns
//! the virtual desktop and decides which bonded target every report goes to.
//! Everything here decides or computes; reading devices, sockets and the
//! network is left to the program around it.

pub mod bytes;
pub mod capture;
pub mod config;
pub mod ctl;
pub mod firmware;
pub mod ipc;
pub mod layout;
pub mod proto;
pub mod provision;
pub mod router;
pub mod text;
pub mod transport;
pub mod tray;
pub mod update;
