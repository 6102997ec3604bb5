[package]
name = "glorfindel"
version = "0.1.0"
edition = "2021"
publish = false

[dependencies]
rand = "=0.8.8"
serde = { version = "=1.0.229", features = ["derive"] }
serde_json = "=1.0.154"
toml = "=0.8.23"
chrono = "=0.4.45"
uuid = { version = "=1.29.0", features = ["v4"] }
urlencoding = "=2.1.3"
axum = "0.7"
tokio = { version = "1", features = ["rt-multi-thread", "macros", "net"] }
