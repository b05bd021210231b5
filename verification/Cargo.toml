[package]
name = "grim_rs"
version = "0.1.0"
edition = "2021"
publish = false

[dependencies]
image = { version = "0.25", default-features = false }
png = "0.17"
jpeg-encoder = "0.6"
wayland-client = "0.31"
wayland-protocols = { version = "0.32", features = ["client", "unstable"] }
wayland-protocols-wlr = { version = "0.3", features = ["client"] }
tempfile = "3"
memmap2 = "0.9"
thiserror = "1"
chrono = "0.4"
log = "0.4"
