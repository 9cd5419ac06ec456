[package]
name = "reserve_ingest"
version = "0.1.0"
edition = "2021"
publish = false

[dependencies]
ethabi = "18"
serde_json = "1"
serde = { version = "1", features = ["derive"] }
csv = "1"
url = "2"
futures = "0.3"
env_logger = "0.10"
tokio = { version = "1", features = ["rt-multi-thread", "macros", "time", "sync"] }
tokio-tungstenite = "0.20"
web3 = { version = "0.19", default-features = false, features = ["http"] }
