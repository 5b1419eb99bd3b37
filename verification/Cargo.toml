[package]
name = "heimdall"
version = "0.1.0"
edition = "2021"
publish = false

[dependencies]
anyhow = "1"
async-channel = "2"
at-commands = "*"
dotenv = "0.15"
env_logger = "*"
lettre = "0.11"
log = "0.4"
rusqlite = "*"
serde = { version = "1", features = ["derive"] }
serialport = { version = "4", default-features = false }
thiserror = "*"
tokio = { version = "1", features = ["full"] }
