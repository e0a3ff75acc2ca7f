[package]
name = "carrier2"
version = "0.1.0"
edition = "2021"
publish = false

[dependencies]
regex = "*"
serde_yaml = "*"
log = "*"
env_logger = "*"
http = "*"
async-trait = "*"
pingora = { version = "*", features = ["lb", "proxy"] }
