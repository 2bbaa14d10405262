[package]
name = "ape"
version = "0.1.0"
edition = "2021"
publish = false

[dependencies]
chrono = "=0.4.45"
las = "=0.11.1"
spade = "=1.8.2"
nalgebra = "=0.35.0"
failure = "=0.1.8"
serde = { version = "=1.0.229", features = ["derive"] }
serde_json = "=1.0.154"
clap = "=2.34.0"
env_logger = "=0.11.11"
