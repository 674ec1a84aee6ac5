[package]
name = "clipboard_sync"
version = "0.1.0"
edition = "2021"
publish = false

[dependencies]
anyhow = "*"
arboard = { version = "*", default-features = false }
chrono = { version = "*", default-features = false, features = ["clock"] }
clap = { version = "*", features = ["derive"] }
nix = { version = "*", features = ["process", "signal"] }
terminal-clipboard = "*"
thiserror = "*"
wayland-client = "*"
wl-clipboard-rs = "*"
