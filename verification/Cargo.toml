[package]
name = "crambo_desktop"
version = "0.1.0"
edition = "2021"
publish = false

[dependencies]
url = "=2.5.8"
image = { version = "=0.24.9", default-features = false, features = ["jpeg"] }
serde = { version = "=1.0.229", features = ["derive"] }
serde_json = "=1.0.154"
tempfile = "=3.27.0"
