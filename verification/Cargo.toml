[package]
name = "zerobridge"
version = "0.1.0"
edition = "2021"
publish = false

[dependencies]
blake2 = "=0.10.6"
sha2 = "=0.10.9"
sha3 = "=0.10.9"
hex = "=0.4.3"
chrono = "=0.4.45"
k256 = { version = "=0.13.4", features = ["ecdsa"] }
anyhow = "1"
serde = { version = "1", features = ["derive"] }
serde_json = "1"
toml = "0.8"
tokio = { version = "1", features = ["rt-multi-thread", "macros", "time", "signal", "sync", "fs", "net"] }
tracing = "0.1"
tracing-subscriber = { version = "0.3", features = ["env-filter"] }
clap = { version = "4", features = ["derive"] }
async-trait = "0.1"
axum = "0.7"
reqwest = { version = "0.11", default-features = false, features = ["json", "rustls-tls"] }
sqlx = { version = "0.7", features = ["runtime-tokio", "sqlite"] }
prometheus = "0.13"
lazy_static = "1"
