[package]
name = "sbs_frontend"
version = "0.1.0"
edition = "2021"
publish = false

[dependencies]
html-escape = "0.2"
serde_json = "1"
serde = { version = "1", features = ["derive"] }
serde_urlencoded = "0.7"
maud = "0.25"
chrono = "0.4"
rusqlite = { version = "0.29", features = ["bundled", "chrono"] }
axum = "0.6"
tokio = { version = "1", features = ["rt-multi-thread", "macros", "net"] }
tower-cookies = "0.9"
tower-http = { version = "0.4", features = ["fs", "limit"] }
toml = "0.7"
timeago = "0.4"
