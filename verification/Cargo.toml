[package]
name = "watchlist"
version = "0.1.0"
edition = "2021"
publish = false

[dependencies]
ring = "*"
hex = "*"
serde = { version = "*", features = ["derive"] }
serde_json = "*"
axum = "*"
axum-auth = "*"
tokio = { version = "*", features = ["rt-multi-thread", "net", "macros"] }
