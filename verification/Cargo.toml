[package]
name = "wlrix-screenshot"
version = "0.1.0"
edition = "2021"
publish = false

[dependencies]
libc = "0.2"
png = "0.18"
rustix = { version = "1", features = ["event", "fs", "mm", "pipe"] }
serde = { version = "1", features = ["derive"] }
serde_json = "1"
smithay-client-toolkit = { version = "0.19", features = ["calloop"] }
toml = "*"
wayland-client = "0.31"
wayland-protocols = { version = "0.32", features = ["client", "staging"] }
wayland-protocols-wlr = { version = "0.3", features = ["client"] }
