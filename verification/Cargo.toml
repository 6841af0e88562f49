[package]
name = "tunnel_core"
version = "0.1.0"
edition = "2021"
publish = false

[dependencies]
tokio = { version = "*", features = ["full"] }
tokio-tungstenite = "*"
futures = "*"
log = "*"
env_logger = "*"
argh = "*"
config = { version = "*", default-features = false, features = ["toml"] }
serde = { version = "*", features = ["derive"] }
http = "*"
tracing = "*"
tracing-subscriber = { version = "*", features = ["env-filter"] }
