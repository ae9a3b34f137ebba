[package]
name = "rusty_bind"
version = "0.1.0"
edition = "2021"
publish = false

[dependencies]
uuid = { version = "*", features = ["v4"] }
tokio = { version = "*", features = ["rt", "time", "net", "sync"] }
rumqttc = "*"
axum = "*"
chrono = "*"
anyhow = "*"
lazy_static = "*"
tracing = "*"
tracing-subscriber = "*"
