[package]
name = "scrcpy_studio"
version = "0.1.1"
edition = "2021"
publish = false

[dependencies]
chrono = "0.4"
dirs = "6"
serde = { version = "1", features = ["derive"] }
serde_json = "1"
tauri = { version = "2", default-features = false }
