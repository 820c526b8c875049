[package]
name = "cerberus"
version = "0.1.0"
edition = "2021"
publish = false

[dependencies]
rand = "0.8"
num_cpus = "1"
log = "0.4"
env_logger = "0.11"
crossterm = "0.28"
reqwest = { version = "0.12", default-features = false, features = ["blocking", "json", "rustls-tls"] }
serde = { version = "1", features = ["derive"] }
socket2 = { version = "0.5", features = ["all"] }
tokio = { version = "1", features = ["full"] }
parking_lot = "0.12"
