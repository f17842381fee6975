[package]
name = "trader"
version = "0.1.0"
edition = "2021"
publish = false

[dependencies]
k256 = "0.13"
sha3 = "0.10"
sha2 = "0.10"
pbkdf2 = "0.12"
aes-gcm = "0.10"
rand = "0.8"
serde = { version = "1", features = ["derive"] }
serde_json = "1"
