[package]
name = "qkc_mining_assistant"
version = "0.1.0"
edition = "2021"
publish = false

[dependencies]
anyhow = "1"
crossbeam-channel = "0.5"
env_logger = "*"
ethabi = "*"
hex = "0.4"
log = "0.4"
reqwest = { version = "*", default-features = false, features = ["json"] }
serde = { version = "1", features = ["derive"] }
serde_ini = "0.2"
serde_json = "1"
tokio = { version = "1", features = ["full"] }
