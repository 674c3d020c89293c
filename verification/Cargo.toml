[package]
name = "slonk"
version = "0.1.0"
edition = "2021"
publish = false

[dependencies]
gpio-cdev = "=0.6.0"
nix = { version = "=0.27.1", features = ["poll"] }
serde = { version = "=1.0.229", features = ["derive"] }
serde_json = "=1.0.151"
