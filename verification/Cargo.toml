[package]
name = "service_bootstrap"
version = "0.1.0"
edition = "2021"
publish = false

[dependencies]
anyhow = "*"
axum = "*"
color-eyre = "*"
dotenv = "0.15"
sqlx = { version = "*", default-features = false, features = ["runtime-tokio", "postgres", "migrate"] }
tokio = { version = "*", features = ["full"] }
tracing = "*"
tracing-subscriber = "*"
utoipa = "*"
utoipa-swagger-ui = { version = "*", features = ["axum"] }
