[package]
name = "gitblog"
version = "0.1.0"
edition = "2021"
publish = false

[dependencies]
git2 = "*"
clap = { version = "*", features = ["derive"] }
env_logger = "*"
log = "*"
