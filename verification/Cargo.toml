[package]
name = "job_board"
version = "0.1.0"
edition = "2021"
publish = false

[dependencies]
argon2 = "*"
uuid = { version = "=1.27.0", features = ["v4"] }
chrono = "=0.4.45"
rusqlite = { version = "=0.40.2", features = ["bundled"] }
serde = { version = "=1.0.229", features = ["derive"] }
serde_json = "=1.0.151"
actix-web = "=4.15.0"
actix-cors = "=0.7.2"
actix-multipart = "=0.8.5"
futures-util = "=0.3.34"
dotenv = "=0.15.0"
