[package]
name = "alvr_core"
version = "0.1.0"
edition = "2021"
publish = false

[dependencies]
bincode = "1"
bytes = "1"
futures = "0.3"
futures-util = "0.3"
reqwest = { version = "0.11", default-features = false, features = ["json"] }
serde = { version = "1", features = ["derive"] }
serde_json = "1"
settings-schema = "*"
socket2 = "0.5"
tokio = { version = "1", features = ["macros", "net", "rt-multi-thread", "sync", "time"] }
tokio-tungstenite = "0.18"
tokio-util = { version = "0.7", features = ["codec", "net"] }
url = "2"
