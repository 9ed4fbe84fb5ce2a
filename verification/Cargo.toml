[package]
name = "prometheus_cli"
version = "0.1.0"
edition = "2021"
publish = false

[dependencies]
url = "2"
regex = "1"
serde = { version = "1", features = ["derive"] }
serde_json = "1"
toml = "0.8"
config = { version = "*", default-features = false, features = ["toml"] }
clap = { version = "4", features = ["derive"] }
tokio = { version = "1", features = ["full"] }
reqwest = { version = "0.12", default-features = false, features = ["json", "stream", "rustls-tls"] }
futures = "0.3"
anyhow = "1"
chrono = "0.4"
ctrlc = "3"
env_logger = "0.11"
log = "0.4"
libc = "0.2"
