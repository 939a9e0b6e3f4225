[package]
name = "file_explorer"
version = "0.1.0"
edition = "2021"
publish = false

[dependencies]
serde = { version = "=1.0.229", features = ["derive"] }
serde_json = "=1.0.154"
tauri = { version = "=2.12.5", default-features = false, features = ["wry"] }
tauri-plugin-store = { version = "2", default-features = false }
tokio = { version = "=1.54.1", default-features = false, features = ["sync"] }
trash = { version = "=5.2.9", default-features = false }
walkdir = "=2.5.0"
