[package]
name = "brigatory"
version = "0.1.0"
edition = "2021"
publish = false

[dependencies]
actix-web = "4"
actix-service = "2"
mongodb = "2"
bson = "2"
chrono = { version = "0.4", features = ["serde"] }
serde = { version = "1", features = ["derive"] }
serde_json = "1"
futures = "0.3"
futures-util = "0.3"
jsonwebtoken = "9"
bcrypt = "*"
dotenv = "0.15"
env_logger = "0.11"
log = "0.4"
