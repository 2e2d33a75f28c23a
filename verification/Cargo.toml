[package]
name = "monitor_host"
version = "0.1.0"
edition = "2021"
publish = false

[dependencies]
chrono = "*"
uuid = { version = "*", features = ["v4"] }
serde = { version = "*", features = ["derive"] }
serde_json = "*"
tokio = { version = "*", features = ["rt-multi-thread", "macros", "sync", "time", "net"] }
axum = "*"
reqwest = { version = "*", default-features = false, features = ["json"] }
libloading = "*"
sqlx = { version = "*", default-features = false, features = ["runtime-tokio", "sqlite", "chrono"] }
toml = "*"
dotenvy = "*"
anyhow = "*"
tower-http = { version = "*", features = ["cors"] }
