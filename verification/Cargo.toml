[package]
name = "tengine_http"
version = "0.1.0"
edition = "2021"
publish = false

[dependencies]
serde = { version = "=1.0.229", features = ["derive"] }
serde_json = "=1.0.154"
uuid = { version = "=1.29.0", features = ["v4"] }
sha2 = "=0.10.9"
hex = "=0.4.3"
argon2 = "=0.5.3"
jsonwebtoken = "=9.3.1"
md-5 = "=0.10.6"
percent-encoding = "=2.3.2"
urlencoding = "=2.1.3"
mime_guess = "=2.0.5"
chrono = "=0.4.45"
axum = { version = "=0.7.9", features = ["multipart", "ws"] }
axum-server = { version = "=0.7.3", features = ["tls-rustls"] }
tokio = { version = "=1.54.1", features = ["full"] }
tokio-util = { version = "=0.7.20", features = ["io"] }
tower-http = { version = "=0.5.2", features = ["cors"] }
rust-embed = { version = "=8.13.0", features = ["interpolate-folder-path"] }
tracing = "=0.1.44"
tracing-subscriber = { version = "=0.3.23", features = ["env-filter"] }
walkdir = "=2.5.0"
reqwest = { version = "=0.12.28", default-features = false, features = ["json", "multipart"] }
log = "=0.4.35"
