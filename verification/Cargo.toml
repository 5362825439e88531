[package]
name = "pattern_census"
version = "0.1.0"
edition = "2021"
publish = false

[dependencies]
regex = "1"
anyhow = "1"
log = "0.4"
env_logger = "0.11"
clap = { version = "4", features = ["derive"] }
