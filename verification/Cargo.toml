[package]
name = "axum_content_negotiation"
version = "0.1.0"
edition = "2021"
publish = false

[dependencies]
serde_json = "=1.0.151"
cbor4ii = { version = "=1.2.3", features = ["serde1", "use_std"] }
serde = { version = "=1.0.229", features = ["derive"] }
erased-serde = "=0.4.10"
axum = "=0.8.9"
tower = "=0.5.3"
tracing = "*"
