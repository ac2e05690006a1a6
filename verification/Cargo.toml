[package]
name = "api_gateway"
version = "0.1.0"
edition = "2021"
publish = false

[dependencies]
jsonwebtoken = "=9.3.1"
argon2 = "=0.5.3"
rand = "=0.8.8"
chrono = "=0.4.45"
serde = { version = "=1.0.229", features = ["derive"] }
serde_json = "=1.0.151"
