[package]
name = "loglab"
version = "0.1.0"
edition = "2021"
publish = false

[dependencies]
uuid = { version = "=1.27.0", features = ["v4"] }
serde = { version = "=1.0.229", features = ["derive"] }
serde_json = "=1.0.151"
tokio = { version = "=1.53.2", features = ["rt-multi-thread", "macros", "sync", "io-util", "io-std"] }
warp = { version = "=0.4.3", features = ["server", "websocket"] }
futures-util = "=0.3.34"
tokio-tungstenite = "=0.30.0"
reqwest = { version = "=0.13.5", default-features = false, features = ["json"] }
notify = "=8.2.0"
