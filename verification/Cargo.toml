[package]
name = "authcore"
version = "0.1.0"
edition = "2021"
publish = false

[dependencies]
rust-argon2 = "=3.0.0"
jsonwebtoken = { version = "=11.1.0", default-features = false, features = ["rust_crypto"] }
serde_json = "=1.0.151"
uuid = { version = "=1.27.0", features = ["v4"] }
chrono = "=0.4.45"
validator = "=0.16.1"
serde = { version = "*", features = ["derive"] }
log = "*"
env_logger = "*"
dotenvy = "*"
actix-web = "*"
actix-cors = "*"
redis = "*"
diesel = { version = "*", features = ["postgres", "r2d2", "uuid", "chrono"] }
diesel_migrations = "*"
