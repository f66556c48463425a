[package]
name = "notch"
version = "0.1.0"
edition = "2021"
publish = false

[dependencies]
chrono = "0.4"
smithay-client-toolkit = { version = "0.19", default-features = false }
wayland-client = "0.31"
