[package]
name = "mili_rust"
version = "0.1.0"
edition = "2021"
publish = false

[dependencies]
rand = "=0.8.8"
sha1 = "=0.10.7"
sha2 = "=0.10.9"
hmac = "=0.12.1"
serde = { version = "=1.0.229", features = ["derive"] }
serde_json = "=1.0.154"
toml = "=0.8.23"
uuid = "=1.29.0"
base64 = "=0.22.1"
zip = { version = "=9.2.2", default-features = false, features = ["deflate"] }
rsa = "=0.9.10"
