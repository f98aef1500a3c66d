[package]
name = "tachyon_server"
version = "0.1.0"
edition = "2021"
publish = false

[dependencies]
base32 = "=0.5.1"
base64 = "=0.22.1"
chrono = { version = "=0.4.45", default-features = false, features = ["std", "clock"] }
flate2 = "=1.1.10"
hex = "=0.4.3"
hmac = "=0.12.1"
jsonwebtoken = { version = "9", default-features = false }
quick-xml = "=0.36.2"
rand = "=0.8.8"
serde = { version = "=1.0.229", features = ["derive"] }
serde_json = "=1.0.154"
sha1 = "=0.10.7"
sha2 = "=0.10.9"
tokio = { version = "=1.54.1", features = ["sync", "time", "rt", "macros"] }
urlencoding = "=2.1.3"
uuid = { version = "=1.29.0", features = ["v4"] }
