[package]
name = "playground_model"
version = "0.1.0"
edition = "2021"
publish = false

[dependencies]
serde = { version = "1", features = ["derive"] }
serde_json = "1"
thiserror = "*"
uuid = { version = "1", features = ["serde"] }
axum = "*"
gloo-net = "*"
