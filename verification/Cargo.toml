[package]
name = "tinywrite"
version = "0.1.0"
edition = "2021"
publish = false

[dependencies]
ropey = { version = "=1.6.1", default-features = false }
dirs = "=7.0.0"
url = "=2.5.8"
base64 = "=0.23.1"
serde = { version = "=1.0.229", features = ["derive"] }
serde_json = "=1.0.151"
anyhow = "=1.0.104"
globset = "*"
ignore = "*"
chrono = "*"
