[package]
name = "graphsync"
version = "1.0.0"
edition = "2021"
publish = false

[dependencies]
sha2 = "0.10"
hex = "0.4"
url = "2"
uuid = { version = "1", features = ["v4"] }
hostname = "0.4"
chrono = { version = "0.4", features = ["serde"] }
serde = { version = "1", features = ["derive"] }
serde_json = "1"
anyhow = "1"
dirs = "5"
tracing = "0.1"
tracing-subscriber = { version = "0.3", features = ["env-filter"] }
tracing-appender = "0.2"
parking_lot = "0.12"
tokio = { version = "1", features = ["full"] }
reqwest = { version = "0.12", default-features = false, features = ["json", "rustls-tls"] }
notify = "8"
notify-debouncer-full = "0.5"
tokio-tungstenite = "0.24"
futures-util = "0.3"
bytes = "1"
webrtc = "0.13"
