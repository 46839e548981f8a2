[package]
name = "ming_qiao"
version = "0.1.0"
edition = "2021"
publish = false

[dependencies]
sha2 = "=0.10.9"
hex = "=0.4.3"
ed25519-dalek = { version = "=2.2.0", features = ["rand_core"] }
rand = "=0.8.8"
chrono = { version = "=0.4.45", features = ["serde"] }
serde = { version = "=1.0.229", features = ["derive"] }
serde_json = "=1.0.154"
base64 = "=0.22.1"
uuid = { version = "=1.29.0", features = ["v7", "serde"] }
quick-xml = "=0.31.0"
thiserror = "=1.0.69"
clap = { version = "=4.6.7", features = ["derive", "env"] }
tokio = { version = "=1.54.1", features = ["macros", "rt-multi-thread", "time", "process", "signal", "sync", "fs", "io-util"] }
reqwest = { version = "=0.12.28", default-features = false, features = ["json", "blocking", "rustls-tls"] }
toml = "=0.8.23"
anyhow = "=1.0.104"
rustyline = "=14.0.0"
axum = "=0.7.9"
futures-util = "=0.3.34"
async-nats = "=0.51.0"
regex = "=1.13.1"
