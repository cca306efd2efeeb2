[package]
name = "calendar_engine"
version = "0.1.0"
edition = "2021"
publish = false

[dependencies]
chrono = "0.4"
serde = { version = "1", features = ["derive"] }
serde_json = "1"
actix-web = "4"
actix-cors = "0.7"
mongodb = "2"
jsonwebtoken = "9"
bcrypt = "0.15"
lettre = { version = "0.11", default-features = false, features = ["smtp-transport", "builder", "rustls-tls"] }
rand = "0.8"
validator = { version = "0.16", features = ["derive"] }
dotenv = "0.15"
env_logger = "0.11"
futures = "0.3"
derive_more = "0.99"
