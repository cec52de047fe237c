[package]
name = "kagerou"
version = "0.1.0"
edition = "2021"
publish = false

[dependencies]
base64 = "0.22"
url = "2"
semver = "1"
uuid = { version = "1", features = ["v4"] }
serde = { version = "1", features = ["derive"] }
serde_json = "1"
thiserror = "2"
percent-encoding = "2"
futures-util = "0.3"
tokio = { version = "1", features = ["rt-multi-thread", "macros", "time", "net", "sync", "io-util"] }
tokio-tungstenite = "*"
reqwest = { version = "0.12", default-features = false, features = ["json", "socks", "rustls-tls"] }
rusqlite = { version = "*", features = ["bundled"] }
