[package]
name = "market_maker_core"
version = "0.1.0"
edition = "2021"
publish = false

[dependencies]
serde_json = "1"
tokio = { version = "1", features = ["rt", "rt-multi-thread", "time", "net", "macros"] }
tokio-tungstenite = "*"
futures-util = "0.3"
url = "2"
