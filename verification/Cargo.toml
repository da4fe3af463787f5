[package]
name = "polybar_now_playing"
version = "0.1.0"
edition = "2021"
publish = false

[dependencies]
clap = { version = "*", features = ["derive"] }
confy = "*"
env_logger = "*"
log = "*"
mpris = "*"
serde = { version = "*", features = ["derive"] }
signal-hook = "*"
