[package]
name = "chat_client_core"
version = "0.1.0"
edition = "2021"
publish = false

[dependencies]
uuid = { version = "*", features = ["v4"] }
chrono = "*"
chrono-tz = "*"
tokio = { version = "*", features = ["rt-multi-thread", "sync"] }
tokio-tungstenite = "*"
futures-util = "*"
