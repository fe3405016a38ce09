[package]
name = "rawblow"
version = "0.4.7"
edition = "2021"
publish = false

[dependencies]
serde = { version = "=1.0.229", features = ["derive"] }
serde_json = "=1.0.154"
sha2 = "=0.10.9"
ureq = "=2.12.1"
image = { version = "=0.25.10", default-features = false, features = ["png"] }
objc = "=0.2.7"
