[package]
name = "civicverse_node"
version = "0.1.0"
edition = "2021"
publish = false

[dependencies]
anyhow = "1"
base64 = "0.22"
chrono = "0.4"
clap = { version = "4", features = ["derive"] }
ed25519-dalek = "=1.0.1"
env_logger = "0.11"
futures = "0.3"
libp2p = { version = "=0.53.2", default-features = false, features = ["tokio", "tcp", "noise", "yamux", "gossipsub", "mdns", "macros", "ed25519"] }
log = "0.4"
rand = "0.7"
serde = { version = "1", features = ["derive"] }
serde_json = "1"
tokio = { version = "1", features = ["rt-multi-thread", "macros", "sync", "time", "signal"] }
