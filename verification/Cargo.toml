[package]
name = "tldrs"
version = "0.1.0"
edition = "2021"
publish = false

[dependencies]
anyhow = "*"
clap = { version = "*", features = ["derive"] }
daemonize = "*"
env_logger = "*"
log = "*"
xdg = "*"
