[package]
name = "macos_input_monitor"
version = "0.1.0"
edition = "2021"
publish = false

[dependencies]
uuid = { version = "1", features = ["v4"] }
serde = { version = "1", features = ["derive"] }
log = "0.4"
thiserror = "2"
core-foundation = "0.10"
tauri = { version = "2", default-features = false }
