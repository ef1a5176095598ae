[package]
name = "binance_websocket"
version = "0.1.0"
edition = "2021"
publish = false

[dependencies]
rust_decimal = "*"
dashmap = "*"
serde = { version = "*", features = ["derive"] }
serde_json = "*"
thiserror = "*"
tokio = { version = "*", features = ["rt-multi-thread", "macros", "time", "sync", "net"] }
tokio-tungstenite = "*"
futures-util = "*"
reqwest = { version = "*", default-features = false, features = ["json", "rustls-tls"] }
url = "*"
tracing = "*"
tracing-subscriber = { version = "*", features = ["env-filter"] }
