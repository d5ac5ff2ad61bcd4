[package]
name = "pleme_core"
version = "0.1.0"
edition = "2021"
publish = false

[dependencies]
rand = "*"
sha2 = "*"
uuid = { version = "*", features = ["v4"] }
chrono = "*"
chrono-tz = "*"
qrcode = "*"
image = { version = "*", default-features = false, features = ["png"] }
base64 = "*"
