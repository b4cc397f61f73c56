[package]
name = "snowflake"
version = "0.1.0"
edition = "2021"
publish = false

[dependencies]
chrono = { version = "0.4", default-features = false, features = ["clock", "std"] }
axum = "*"
tokio = { version = "1", features = ["rt-multi-thread", "net"] }
dotenv = "0.15"
