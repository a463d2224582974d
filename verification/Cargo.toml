[package]
name = "crossbow"
version = "0.1.0"
edition = "2021"
publish = false

[dependencies]
actix-web = "4"
chrono = "0.4"
dotenvy = "0.15"
env_logger = "0.11"
hex = "0.4"
hmac = "0.12"
log = "0.4"
serde_json = "1"
sha2 = "0.10"
subtle = "2"
tokio = { version = "1", features = ["rt"] }
uuid = { version = "1", features = ["v4"] }
