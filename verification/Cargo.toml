[package]
name = "goose"
version = "0.1.0"
edition = "2021"
publish = false

[dependencies]
serde_json = { version = "=1.0.151", features = ["preserve_order", "float_roundtrip"] }
serde = { version = "=1.0.229", features = ["derive"] }
chrono = "=0.4.45"
tokio = { version = "=1.53.2", features = ["full"] }
anyhow = "=1.0.104"
dirs = "=7.0.0"
futures = "0.3"
