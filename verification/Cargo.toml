[package]
name = "rmsg"
version = "0.1.0"
edition = "2021"
publish = false

[dependencies]
aes-gcm = "0.10"
hkdf = "0.12"
sha2 = "0.10"
x25519-dalek = { version = "2", features = ["static_secrets"] }
rand = "0.8"
base64 = "0.22"
uuid = { version = "1", features = ["v4"] }
serde = { version = "1", features = ["derive"] }
serde_json = "1"
rusqlite = { version = "0.31", features = ["bundled"] }
clap = { version = "4", default-features = false, features = ["std", "derive", "help", "usage", "error-context"] }
tokio = { version = "1", features = ["rt-multi-thread", "sync", "macros", "time"] }
libp2p = { version = "0.53", features = ["tokio", "tcp", "noise", "yamux", "gossipsub", "kad", "identify", "ping", "dcutr", "mdns", "relay", "macros"] }
futures = "0.3"
log = "0.4"
env_logger = { version = "0.11", default-features = false }
thiserror = "1"
ratatui = { version = "0.28", default-features = false, features = ["crossterm"] }
crossterm = "0.28"
