[package]
name = "swype-kbd"
version = "0.1.0"
edition = "2021"
publish = false

[dependencies]
ab_glyph = "0.2"
rustix = { version = "0.38", features = ["fs"] }
smithay-client-toolkit = { version = "0.19", default-features = false }
wayland-client = "0.31"
wayland-protocols-misc = { version = "0.3", features = ["client"] }
