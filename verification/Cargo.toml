[package]
name = "dystopia"
version = "0.1.0"
edition = "2021"
publish = false

[dependencies]
async-nats = "=0.51.0"
bytes = "=1.12.1"
futures = "0.3"
postcard = { version = "1", features = ["alloc"] }
serde = { version = "=1.0.229", features = ["derive"] }
serde_json = "=1.0.154"
tokio = { version = "=1.54.1", features = ["full"] }
tracing = "=0.1.44"
tracing-subscriber = { version = "=0.3.23", features = ["env-filter"] }
