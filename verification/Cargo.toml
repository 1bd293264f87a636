[package]
name = "pullpito"
version = "0.1.0"
edition = "2021"
publish = false

[dependencies]
chrono = "0.4"
env_logger = "0.11"
log = "0.4"
regex = "1"
reqwest = { version = "0.12", default-features = false, features = ["blocking", "rustls-tls"] }
serde = { version = "1", features = ["derive"] }
serde_json = "1"
structopt = "0.3"
