[package]
name = "stozher_kernel"
version = "0.1.0"
edition = "2021"
publish = false

[dependencies]
serde_json = "1"
hex = "0.4"
getrandom = "0.3"
sha2 = "0.10"
axum = "0.8"
askama = "0.14"
tokio = { version = "1", features = ["full"] }
tracing = "0.1"
tracing-subscriber = "0.3"
