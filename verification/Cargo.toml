[package]
name = "pet"
version = "0.1.0"
edition = "2021"
publish = false

[dependencies]
glob = "*"
regex = "*"
toml = "*"
yaml-rust2 = "*"
serde = { version = "*", features = ["derive"] }
serde_json = "*"
sha2 = "*"
base64 = "*"
