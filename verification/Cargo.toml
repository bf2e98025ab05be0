[package]
name = "lightpool_bridge"
version = "0.1.0"
edition = "2021"
publish = false

[dependencies]
anyhow = "1"
axum = { version = "0.7", features = ["ws"] }
base64 = "0.13"
bincode = "1.3"
clap = { version = "4", features = ["derive"] }
env_logger = "0.11"
ethabi = "18"
ethereum-types = "0.14"
futures-util = "0.3"
hex = "0.4"
k256 = { version = "0.13", features = ["ecdsa"] }
log = "0.4"
reqwest = { version = "0.12", default-features = false, features = ["json"] }
rusqlite = { version = "0.31", features = ["bundled"] }
serde = { version = "1", features = ["derive"] }
serde_json = "1"
sha3 = "0.10"
thiserror = "1"
tokio = { version = "1", features = ["full"] }
tokio-tungstenite = "0.21"
tokio-util = "0.7"
url = "2"
