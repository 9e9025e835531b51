[package]
name = "xremap_tap_hold"
version = "0.1.0"
edition = "2021"
publish = false

[dependencies]
evdev = "0.13"
log = "0.4"
serde = { version = "1", features = ["derive"] }
