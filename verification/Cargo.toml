[package]
name = "fracture"
version = "0.1.0"
edition = "2021"
publish = false

[dependencies]
queues = "*"
tokio = { version = "*", features = ["full"] }
uuid = { version = "*", features = ["v4"] }
serde = { version = "*", features = ["derive"] }
serde_json = "*"
clap = { version = "*", features = ["derive"] }
log = "*"
env_logger = "*"
