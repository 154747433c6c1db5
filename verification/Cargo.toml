[package]
name = "akamai"
version = "0.1.0"
edition = "2021"
publish = false

[dependencies]
base64 = "0.10"
chrono = "0.4"
hmac = "0.7"
sha2 = "0.8"
serde_json = "1"
url = "1.7"
uuid = { version = "0.7", features = ["v4"] }
reqwest = "0.9"
structopt = "0.2"
