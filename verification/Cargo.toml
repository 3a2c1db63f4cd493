[package]
name = "rustysignal"
version = "0.1.0"
edition = "2021"
publish = false

[dependencies]
serde_json = "*"
ws = "*"
clap = "*"
env_logger = "*"
web-push = "*"
tokio = { version = "*", features = ["rt"] }
