[package]
name = "symbio_session"
version = "0.1.0"
edition = "2021"
publish = false

[dependencies]
serde = { version = "1", features = ["derive"] }
serde_json = "1"
time = { version = "0.3", features = ["formatting"] }
uuid = { version = "1", features = ["v4"] }
indexmap = "2"
tokio = { version = "1", features = ["full"] }
async-trait = "0.1"
tracing = "0.1"

[dev-dependencies]
tempfile = "3"
