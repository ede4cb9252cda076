[package]
name = "screen_pilot"
version = "0.1.0"
edition = "2021"
publish = false

[dependencies]
regex = "1"
uuid = { version = "1", features = ["v4"] }
serde = { version = "1", features = ["derive"] }
serde_json = "1"
toml = "0.8"
tokio = { version = "1", features = ["full"] }
reqwest = { version = "0.12", default-features = false }
axum = { version = "0.7", features = ["multipart"] }
tower-http = { version = "0.5", features = ["cors", "fs"] }
tokio-util = { version = "0.7", features = ["io"] }
async-stream = "0.3"
socket2 = { version = "0.5", features = ["all"] }
anyhow = "1"
log = "0.4"
env_logger = "0.11"
once_cell = "1"
