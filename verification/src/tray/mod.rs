//! The tray icon, its menu and its settings window: what they show and decide.

pub mod attach;
pub mod daemon;
pub mod firmware;
pub mod icon;
pub mod login;
pub mod menu;
pub mod settings;
pub mod status;
