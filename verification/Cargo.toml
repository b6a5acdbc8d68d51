[package]
name = "emotion_core"
version = "2.0.0"
edition = "2021"
publish = false

[dependencies]
serde = { version = "1", features = ["derive"] }
serde_json = "1"
thiserror = "2"
pyo3 = "0.23"
napi = "2"
napi-derive = "2"
