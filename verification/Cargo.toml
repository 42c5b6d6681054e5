[package]
name = "avatar_backend"
version = "0.1.0"
edition = "2021"
publish = false

[dependencies]
async-std = { version = "1", features = ["attributes"] }
base64 = "0.13"
femme = "2"
hex = "0.4"
log = "0.4"
rand = "0.8"
serde = { version = "1", features = ["derive"] }
serde_json = "1"
sha2 = "0.10"
surf = "2.3"
tide = "0.16"
tide-websockets = "0.4"
uuid = "1"
