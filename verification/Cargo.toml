[package]
name = "rotire"
version = "0.1.0"
edition = "2021"
publish = false

[dependencies]
anyhow = "*"
clap = { version = "*", features = ["derive"] }
env_logger = "*"
flate2 = "*"
log = "*"
tar = "*"
