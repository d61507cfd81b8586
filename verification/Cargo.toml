[package]
name = "note_boi"
version = "0.1.0"
edition = "2021"
publish = false

[dependencies]
keyring = "3"
serde = { version = "1", features = ["derive"] }
serde_json = "1"
uuid = { version = "1", features = ["v4"] }
