[package]
name = "learning_tracker"
version = "0.1.0"
edition = "2021"
publish = false

[dependencies]
actix-cors = "*"
actix-web = "4"
bcrypt = "*"
bson = "2"
chrono = "0.4"
dotenv = "0.15"
env_logger = "*"
futures = "0.3"
mongodb = "2"
serde = { version = "1", features = ["derive"] }
serde_json = "1"
thiserror = "1"
