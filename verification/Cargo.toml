[package]
name = "qwise_sim"
version = "0.1.0"
edition = "2021"
publish = false

[dependencies]
axum = { version = "*", features = ["multipart"] }
tokio = { version = "*", features = ["macros", "rt-multi-thread", "net"] }
hound = "*"
serde = { version = "*", features = ["derive"] }
base64 = "*"
