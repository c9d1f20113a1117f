[package]
name = "autodate"
version = "0.1.0"
edition = "2021"
publish = false

[dependencies]
chrono = "*"
regex = "*"
notify = "*"
log = "*"
env_logger = "*"
envy = "*"
serde = { version = "*", features = ["derive"] }
dotenvy = "*"
