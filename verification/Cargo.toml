[package]
name = "web_home"
version = "0.1.0"
edition = "2021"
publish = false

[dependencies]
aes-gcm = "=0.11.1"
rust-argon2 = "=3.0.0"
base64ct = { version = "=1.8.3", features = ["alloc"] }
getrandom = "=0.4.3"
sha3 = "=0.12.0"
time = "=0.3.55"
url = "=2.5.8"
serde = { version = "*", features = ["derive"] }
serde_json = "*"
