[package]
name = "logi-forge"
version = "0.1.0"
edition = "2021"
publish = false

[dependencies]
evdev = "0.13"
serde = { version = "1", features = ["derive"] }
serde_json = "1"
toml = "0.8"
