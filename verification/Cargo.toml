[package]
name = "lucid"
version = "0.2.0"
edition = "2021"
publish = false

[dependencies]
tauri = { version = "2", default-features = false, features = ["tray-icon", "image-png"] }
tauri-plugin-autostart = { version = "2", default-features = false }
