[package]
name = "govsync"
version = "0.1.0"
edition = "2021"
publish = false

[dependencies]
serde = { version = "1", features = ["derive"] }
serde_json = "1"
reqwest = { version = "0.12", default-features = false, features = ["blocking", "json"] }
chrono = "0.4"
log = "0.4"
env_logger = "0.11"
clap = { version = "4", features = ["derive"] }
