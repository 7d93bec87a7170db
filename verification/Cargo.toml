[package]
name = "sleep-api"
version = "0.1.0"
edition = "2021"
publish = false

[dependencies]
argon2 = "=0.5.3"
askama = "=0.12.1"
axum = "=0.8.9"
axum-extra = { version = "=0.10.3", features = ["cookie", "cookie-private", "cookie-key-expansion"] }
base64 = "=0.22.1"
chrono = { version = "=0.4.45", features = ["serde"] }
chrono-tz = "=0.10.4"
cookie = "=0.18.2"
dotenvy = "=0.15.7"
rand = "=0.8.8"
serde = { version = "=1.0.229", features = ["derive"] }
serde_json = "=1.0.154"
sqlx = { version = "=0.8.6", default-features = false, features = ["sqlite", "runtime-tokio", "chrono", "migrate", "derive"] }
thiserror = "=1.0.69"
tokio = { version = "=1.54.1", features = ["macros", "rt-multi-thread", "net"] }
tower-http = { version = "=0.6.11", features = ["set-header"] }
tracing = "=0.1.44"
tracing-subscriber = "=0.3.23"
