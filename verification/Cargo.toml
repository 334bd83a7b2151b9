[package]
name = "otp_fill"
version = "0.1.0"
edition = "2021"
publish = false

[dependencies]
core-foundation = "0.10"
core-graphics = "0.25"
eframe = { version = "0.31", default-features = false, features = ["glow", "x11"] }
log = "0.4"
notify = "8"
rust-i18n = "3"
tokio = { version = "1", features = ["rt", "time"] }
winit = { version = "0.30", default-features = false, features = ["rwh_06", "x11"] }
