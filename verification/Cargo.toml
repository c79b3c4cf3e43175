[package]
name = "bluebeam"
version = "0.1.0"
edition = "2021"
publish = false

[dependencies]
sha2 = "0.10"
base64 = "0.22"
aes-gcm = "0.10"
x25519-dalek = { version = "2", features = ["static_secrets"] }
rand = "0.8"
zeroize = "1"
rusqlite = { version = "0.31", features = ["bundled"] }
dirs = "5"
serde = { version = "1", features = ["derive"] }
serde_json = "1"
chrono = "0.4"
uuid = { version = "1", features = ["v4"] }
