[package]
name = "payfree"
version = "0.1.0"
edition = "2021"
publish = false

[dependencies]
actix-web = "*"
argon2 = "*"
chrono = "*"
futures = "*"
jsonwebtoken = "*"
serde = { version = "*", features = ["derive"] }
serde_json = "*"
uuid = { version = "*", features = ["v4"] }
