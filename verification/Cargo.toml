[package]
name = "account_auth"
version = "0.1.0"
edition = "2021"
publish = false

[dependencies]
argon2 = "=0.5.3"
rand_core = { version = "=0.6.4", features = ["getrandom"] }
base64 = "=0.22.1"
jsonwebtoken = "=9.3.1"
chrono = "=0.4.45"
serde = { version = "=1.0.229", features = ["derive"] }
axum = "=0.8.9"
tokio = { version = "=1.53.2", features = ["rt-multi-thread", "net", "macros", "signal"] }
