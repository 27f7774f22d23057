[package]
name = "diskprobe"
version = "0.1.0"
edition = "2021"
publish = false

[dependencies]
serde_json = "1"
nix = { version = "*", features = ["user"] }
prettytable-rs = { version = "*", default-features = false }
rayon = "1"
