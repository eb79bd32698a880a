[package]
name = "score_gateway"
version = "0.1.0"
edition = "2021"
publish = false

[dependencies]
jsonwebtoken = "9"
serde_json = "1"
rand = "0.9"
chrono = "0.4"
axum = "*"
tokio = { version = "1", features = ["full"] }
tower-http = { version = "*", features = ["cors", "limit", "timeout", "trace"] }
sqlx = { version = "*", default-features = false, features = ["runtime-tokio", "postgres"] }
serde = { version = "1", features = ["derive"] }
dotenv = "0.15"
tracing = "0.1"
tracing-appender = "0.2"
tracing-subscriber = "0.3"
