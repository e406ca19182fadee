[package]
name = "dstimer"
version = "0.1.0"
edition = "2021"
publish = false

[dependencies]
clap = { version = "=4.6.7", features = ["derive"] }
crossterm = "=0.28.1"
ctrlc = "=3.5.2"
dirs = "=5.0.1"
libc = "=0.2.191"
notify-rust = "4"
serde = { version = "=1.0.229", features = ["derive"] }
serde_yaml = "=0.9.34"
ureq = { version = "=2.12.1", default-features = false }
