[package]
name = "deploy"
version = "0.1.0"
edition = "2021"
publish = false

[dependencies]
ssh2 = "*"
tar = "*"
flate2 = "*"
walkdir = "*"
md5 = "*"
serde = { version = "*", features = ["derive"] }
serde_json = "*"
toml = "*"
clap = { version = "*", features = ["derive"] }
log = "*"
env_logger = "*"
chrono = "*"
