[package]
name = "cirislens-core"
version = "0.1.0"
edition = "2021"
publish = false

[dependencies]
serde_json = "*"
regex = "*"
base64 = "*"
ed25519-dalek = "*"
sha2 = "*"
hex = "*"
uuid = { version = "*", features = ["v4"] }
