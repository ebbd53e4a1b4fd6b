[package]
name = "cosmscan"
version = "0.1.0"
edition = "2021"
publish = false

[dependencies]
sha2 = "*"
serde_json = "*"
chrono = "*"
serde = { version = "*", features = ["derive"] }
toml = "*"
thiserror = "*"
log = "*"
env_logger = "*"
tokio = { version = "*", features = ["full"] }
futures = "*"
tendermint = "*"
tendermint-rpc = { version = "*", features = ["http-client"] }
reqwest = { version = "*", default-features = false, features = ["json"] }
