[package]
name = "byte_heist"
version = "0.1.0"
edition = "2021"
publish = false

[dependencies]
slug = "=0.1.6"
tokio = { version = "=1.53.2", features = ["full"] }
axum = "=0.8.9"
dashmap = "=6.2.1"
async-process = "=2.5.0"
futures-util = { version = "=0.3.34", features = ["io"] }
serde = { version = "=1.0.229", features = ["derive"] }
serde_json = "=1.0.151"

[dev-dependencies]
