[package]
name = "rusty_dock"
version = "0.1.0"
edition = "2021"
publish = false

[dependencies]
freedesktop-desktop-entry = "=0.7.19"
serde = { version = "=1.0.229", features = ["derive"] }
serde_json = "=1.0.154"
toml = "=0.8.23"
chrono = { version = "=0.4.45", default-features = false, features = ["clock"] }
dirs = "=5.0.1"
freedesktop-icons = "=0.2.6"
image = { version = "=0.25.10", default-features = false, features = ["png"] }
resvg = { version = "=0.40.0", default-features = false }
cairo-rs = "=0.19.4"
smithay-client-toolkit = "=0.18.1"
wayland-client = "=0.31.15"
device_query = "=2.1.0"
