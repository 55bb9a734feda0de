[package]
name = "madari"
version = "0.1.0"
edition = "2021"
publish = false

[dependencies]
url = "=2.5.8"
sha2 = "=0.10.9"
subtle = "=2.6.1"
serde_json = "=1.0.154"
image = { version = "0.25", default-features = false, features = ["png", "jpeg", "gif", "webp"] }
