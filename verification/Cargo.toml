[package]
name = "assoc_guard"
version = "0.1.0"
edition = "2021"
publish = false

[dependencies]
md5 = "*"
base64 = "*"
serde = { version = "*", features = ["derive"] }
serde_json = "*"
