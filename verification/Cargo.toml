[package]
name = "panicbase"
version = "0.1.0"
edition = "2021"
publish = false

[dependencies]
sha2 = "0.10"
serde = { version = "1", features = ["derive"] }
serde_json = "1"
regex = "1"
chacha20poly1305 = "0.10"
flate2 = "1"
base64 = "0.22"
chrono = "0.4"
dirs = "5"
rusqlite = { version = "0.31", features = ["bundled"] }
