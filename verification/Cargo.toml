[package]
name = "monx"
version = "0.1.0"
edition = "2021"
publish = false

[dependencies]
regex = "1"
serde_json = "1"
chrono = "0.4"
uuid = { version = "1", features = ["v4"] }
serde = { version = "1", features = ["derive"] }
serde_yaml = "0.9"
tokio = { version = "1", features = ["full"] }
actix = "0.13"
actix-web = "4"
actix-web-actors = "4"
actix-cors = "0.7"
env_logger = "0.11"
reqwest = { version = "0.12", default-features = false, features = ["json"] }
rdkafka = "0.36"
opensearch = { version = "2", default-features = false }
