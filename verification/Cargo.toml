[package]
name = "openai_bridge"
version = "0.1.0"
edition = "2021"
publish = false

[dependencies]
uuid = { version = "*", features = ["v4"] }
openai-api-rs = "*"
alfred-core = "*"
alfred-rs = "*"
tokio = { version = "*", features = ["full"] }
env_logger = "*"
