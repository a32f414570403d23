[package]
name = "teststrip"
version = "0.1.0"
edition = "2021"
publish = false

[dependencies]
rand = "0.8"
serde = { version = "1", features = ["derive"] }
serde_json = "1"
chrono = "0.4"
notify = "6"
open = "5"
tauri = { version = "2", default-features = false }

[dev-dependencies]
tempfile = "3"
