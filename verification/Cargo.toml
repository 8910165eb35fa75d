[package]
name = "hk-api"
version = "0.1.0"
edition = "2021"
publish = false

[dependencies]
serde_json = "1"
httparse = "1"
flate2 = "1"
tungstenite = "*"
libc = "0.2"
