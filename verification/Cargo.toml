[package]
name = "planpoker"
version = "0.1.0"
edition = "2021"
publish = false

[dependencies]
rand = "*"
uuid = { version = "*", features = ["v4"] }
serde = { version = "1", features = ["derive"] }
serde_json = "1"
bincode = "1"
actix = "*"
actix-web = "4"
actix-web-actors = "*"
env_logger = "*"
