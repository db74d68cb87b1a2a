[package]
name = "key_launcher"
version = "0.1.0"
edition = "2021"
publish = false

[dependencies]
global-hotkey = "0.5"
serde = { version = "1", features = ["derive"] }
toml = "0.8"
winit = "0.29"
