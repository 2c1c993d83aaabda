//! Firmware updates: finding a release, and pushing an image to the dongle.
//!
//! Split out of the programs because more than one of them needs every part of
//! it, and a second idea of which release is newer is a second thing to get
//! wrong.

pub mod flash;
pub mod release;
pub mod version;

pub use crate::update::flash::firmware_info;
pub use crate::update::flash::flash;
pub use crate::update::flash::Link;
pub use crate::update::release::download_factory;
pub use crate::update::release::download_firmware;
pub use crate::update::release::latest_release;
pub use crate::update::release::Release;
pub use crate::update::release::FIRMWARE_ASSET;
pub use crate::update::version::is_newer;
