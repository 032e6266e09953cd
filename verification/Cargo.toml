[package]
name = "commit_message"
version = "0.1.0"
edition = "2021"
publish = false

[dependencies]
regex = "1"
serde_json = "1"
clap = "2"
log = "0.4"
env_logger = "0.10"
