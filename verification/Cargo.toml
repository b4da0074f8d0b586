[package]
name = "seichi_portal"
version = "0.1.0"
edition = "2021"
publish = false

[dependencies]
uuid = "=1.29.0"
tokio = { version = "=1.54.1", features = ["sync", "rt", "macros", "time"] }
serde = { version = "=1.0.229", features = ["derive"] }
serde_json = "=1.0.154"
anyhow = "=1.0.104"
chrono = "=0.4.45"
axum = "=0.8.9"
reqwest = { version = "=0.12.28", default-features = false, features = ["json", "multipart", "rustls-tls"] }
tracing = "=0.1.44"
futures = "=0.3.34"
base64 = "0.22"
