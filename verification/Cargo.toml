[package]
name = "simple_tcp_server"
version = "0.1.0"
edition = "2021"
publish = false

[dependencies]
serde_json = "1"
ws = "0.9"
rocket = { version = "0.5", default-features = false }
