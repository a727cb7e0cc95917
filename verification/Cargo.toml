[package]
name = "piston"
version = "0.1.0"
edition = "2021"
publish = false

[dependencies]
moka = { version = "0.12", features = ["sync"] }
rand = "0.8"
actix = "0.13"
serde = { version = "1", features = ["derive"] }
serde_json = "1"
interprocess = "1"
crossterm = "0.27"
ratatui = "0.26"
dotenv = "0.15"
env_logger = "0.10"
log = "0.4"
