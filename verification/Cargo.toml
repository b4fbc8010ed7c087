[package]
name = "wavry_core"
version = "0.1.0"
edition = "2021"
publish = false

[dependencies]
sha2 = "=0.10.9"
hex = "=0.4.3"
chrono = { version = "=0.4.45", default-features = false, features = ["std", "clock"] }
serde = { version = "=1.0.229", features = ["derive"] }
uuid = { version = "=1.29.0", features = ["v4", "serde"] }
base32 = "=0.5.1"
rand = "=0.8.8"
base64 = "=0.22.1"
chacha20poly1305 = "=0.10.1"
totp-rs = { version = "=5.7.2", features = ["otpauth", "qr"] }
argon2 = "=0.5.3"
serde_json = "=1.0.154"
