[package]
name = "best_bot"
version = "0.1.0"
edition = "2021"
publish = false

[dependencies]
libloading = "*"
log = "*"
serde = { version = "*", features = ["derive"] }
slack = "*"
slack_api = "*"
thread-id = "*"
toml = "*"
