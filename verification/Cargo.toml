[package]
name = "yapper"
version = "0.1.0"
edition = "2021"
publish = false

[dependencies]
regex = "=1.13.1"
serde = { version = "=1.0.229", features = ["derive"] }
serde_json = "=1.0.154"
serde_yaml = "=0.9.34"
rusqlite = { version = "=0.41.1", features = ["bundled"] }
base64 = "=0.23.1"
tokio = { version = "=1.54.1", features = ["process", "io-util", "sync", "time", "macros", "rt-multi-thread"] }
futures-util = { version = "=0.3.34", features = ["sink"] }
tokio-tungstenite = "=0.30.0"
local-ip-address = "=0.6.13"
ureq = "=2.12.1"
sevenz-rust = "=0.6.1"
rubato = "=1.0.1"
audioadapter-buffers = "=2.0.0"
cpal = "=0.18.2"
arboard = "=3.7.0"
enigo = "=0.6.1"
