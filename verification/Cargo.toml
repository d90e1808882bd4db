[package]
name = "domain_proxy"
version = "0.1.0"
edition = "2021"
publish = false

[dependencies]
regex = "1"
serde = { version = "1", features = ["derive"] }
serde_json = "1"
tokio = { version = "1", features = ["full"] }
anyhow = "1"
async-trait = "0.1"
bytes = "1"
env_logger = "0.11"
bollard = "0.18"
pingora = "0.4"
pingora-core = "0.4"
pingora-http = "0.4"
pingora-proxy = "0.4"
