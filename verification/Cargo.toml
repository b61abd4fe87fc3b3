[package]
name = "clnaddress"
version = "0.1.0"
edition = "2021"
publish = false

[dependencies]
anyhow = "=1.0.104"
axum = "=0.8.9"
cln-plugin = "=0.7.0"
cln-rpc = "=0.7.0"
log = "=0.4.35"
nostr = { version = "=0.45.6", features = ["std", "os-rng"] }
nostr-sdk = "=0.44.1"
parking_lot = "=0.12.5"
serde = { version = "=1.0.229", features = ["derive"] }
serde_json = "=1.0.154"
tokio = { version = "=1.54.1", features = ["fs", "io-std", "macros", "net", "rt-multi-thread", "sync", "time"] }
url = "=2.5.8"
uuid = { version = "=1.29.0", features = ["v4"] }
