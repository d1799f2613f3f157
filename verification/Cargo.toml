[package]
name = "joyclicks"
version = "0.1.0"
edition = "2021"
publish = false

[dependencies]
anyhow = "1"
ctrlc = "3"
evdev = "0.13"
nix = { version = "0.29", features = ["poll"] }
serde = { version = "1", features = ["derive"] }
toml = "0.8"
