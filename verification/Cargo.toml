[package]
name = "redis_protocol_bridge"
version = "0.1.0"
edition = "2021"
publish = false

[dependencies]
redis-protocol = "*"
log = "0.4"
env_logger = "*"
serde = { version = "1", features = ["derive"] }
tokio = { version = "1", features = ["net", "io-util", "rt-multi-thread", "macros"] }
