[package]
name = "adnl"
version = "0.1.0"
edition = "2021"
publish = false

[dependencies]
aes-ctr = "0.6"
sha2 = "0.10"
rand = "0.8"
lockfree = "0.5"
tokio = { version = "1", features = ["full"] }
tokio-io-timeout = "1"
tokio-tungstenite = "0.20"
tokio-stream = { version = "0.1", features = ["net"] }
futures = "0.3"
stream-cancel = "0.8"
async-trait = "0.1"
serde = { version = "1", features = ["derive"] }
serde_json = "1"
log = "0.4"
