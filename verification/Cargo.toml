[package]
name = "chore_server"
version = "0.1.0"
edition = "2021"
publish = false

[dependencies]
axum = "*"
chrono = "0.4"
serde = { version = "1", features = ["derive"] }
sqlx = { version = "*", default-features = false, features = ["runtime-tokio", "sqlite", "migrate"] }
tokio = { version = "1", features = ["macros", "rt-multi-thread", "signal", "net"] }
toml = "*"
tracing = "0.1"
tracing-subscriber = "0.3"
