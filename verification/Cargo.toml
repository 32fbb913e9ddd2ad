[package]
name = "solana-validator-optimizer"
version = "2.1.2"
edition = "2021"
publish = false

[dependencies]
lru = "*"
sha2 = "0.10"
solana-sdk = { version = "3", default-features = false }
solana-commitment-config = "3"
config = { version = "*", default-features = false, features = ["toml"] }
serde = { version = "1", features = ["derive"] }
serde_json = "1"
anyhow = "1"
clap = { version = "4", features = ["derive"] }
tokio = { version = "1", features = ["full"] }
reqwest = { version = "0.12", default-features = false, features = ["stream", "rustls-tls"] }
futures-util = "0.3"
axum = "0.8"
prometheus = { version = "*", default-features = false }
once_cell = "1"
env_logger = "*"
