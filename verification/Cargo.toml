[package]
name = "rmconvert"
version = "0.1.0"
edition = "2021"
publish = false

[dependencies]
svg = "*"
clap = { version = "*", features = ["derive"] }
clio = { version = "*", features = ["clap-parse"] }
env_logger = "*"
log = "*"
serde = { version = "*", features = ["derive"] }
serde_json = "*"
