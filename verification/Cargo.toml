[package]
name = "mc_proxy"
version = "0.1.0"
edition = "2021"
publish = false

[dependencies]
serde = { version = "1", features = ["derive"] }
tokio = { version = "1", features = ["full"] }
tokio-util = { version = "0.7" }
toml = "*"
tracing = "0.1"
tracing-subscriber = "0.3"
