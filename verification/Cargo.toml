[package]
name = "remotedesk"
version = "0.1.0"
edition = "2021"
publish = false

[dependencies]
zstd = "=0.13.4"
sodiumoxide = "=0.2.7"
rand = "=0.9.5"
serde = { version = "=1.0.229", features = ["derive"] }
bincode = "=1.3.3"
tokio = { version = "=1.54.1", features = ["net", "io-util", "sync", "time", "rt", "macros"] }
toml = "=0.8.23"
dirs = "=6.0.0"
dirs-next = "=2.0.0"
thiserror = "=2.0.21"
tracing = "=0.1.44"
base64 = "0.22"
anyhow = "1"
serde_json = "1"
tracing-subscriber = "0.3"
