[package]
name = "http_tunnel"
version = "0.1.0"
edition = "2021"
publish = false

[dependencies]
bytes = "1"
tokio = { version = "1", features = ["full"] }
tokio-util = { version = "0.7", features = ["codec"] }
futures = "0.3"
async-trait = "0.1"
log = "0.4"
serde = { version = "1", features = ["derive"] }
humantime-serde = "1"
derive_builder = "0.20"
