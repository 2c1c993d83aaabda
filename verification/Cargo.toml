[package]
name = "scurry"
version = "0.1.0"
edition = "2021"
publish = false

[dependencies]
anyhow = "1"
btleplug = "0.11"
core-foundation = "0.10"
core-graphics = "0.24"
espflash = { version = "4", default-features = false, features = ["serialport"] }
futures = "0.3"
libc = "0.2"
log = "0.4"
png = "0.17"
serde = { version = "1", features = ["derive"] }
serde_json = "1"
serialport = { version = "4", default-features = false }
sha2 = "0.10"
tokio = { version = "1", features = ["rt", "sync", "time", "macros"] }
toml = "0.8"
tray-icon = { version = "0.19", default-features = false }
ureq = { version = "2", features = ["json"] }
uuid = "1"
winit = { version = "0.30", default-features = false, features = ["x11", "rwh_06"] }
