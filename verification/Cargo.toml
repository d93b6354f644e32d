[package]
name = "wiki-server"
version = "0.1.0"
edition = "2021"
publish = false

[dependencies]
regex = "1"
urlencoding = "2"
uuid = { version = "1", features = ["v4"] }
rand = "0.8"
dirs = "5"
mime_guess = "2"
serde = { version = "1", features = ["derive"] }
serde_json = "1"
toml = "0.8"
chrono = "0.4"
axum = { version = "0.7", features = ["multipart"] }
tokio = { version = "1", features = ["full"] }
tower-http = { version = "0.5", features = ["cors", "fs", "trace"] }
tracing = "0.1"
tracing-subscriber = "0.3"
reqwest = { version = "0.12", default-features = false, features = ["cookies", "rustls-tls"] }
sqlx = { version = "0.8", default-features = false, features = ["runtime-tokio", "sqlite"] }
which = "6"
async-stream = "0.3"
futures = "0.3"
arrow-array = "53"
arrow-schema = "53"
