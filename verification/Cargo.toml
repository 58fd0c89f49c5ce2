[package]
name = "jwe"
version = "0.1.0"
edition = "2021"
publish = false

[dependencies]
base64 = "0.22"
flate2 = "1"
once_cell = "1"
openssl = "0.10"
serde_json = { version = "1", features = ["preserve_order"] }
