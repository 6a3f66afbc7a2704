[package]
name = "demo_service"
version = "0.1.0"
edition = "2021"
publish = false

[dependencies]
axum = "0.6"
serde_urlencoded = "0.7"
tokio = { version = "1", features = ["macros", "rt-multi-thread", "time"] }
tower = "0.4"
tower-http = { version = "0.4", features = ["fs", "compression-br", "compression-gzip"] }
