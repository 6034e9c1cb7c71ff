[package]
name = "rah"
version = "0.0.1"
edition = "2021"
publish = false

[dependencies]
alpm = "*"
anyhow = "*"
chrono = "*"
clap = "*"
env_logger = "*"
log = "*"
raur = "*"
tokio = { version = "1", features = ["macros", "rt-multi-thread"] }
toml = "*"
users = "*"
