[package]
name = "rate_limiter"
version = "0.1.0"
edition = "2021"
publish = false

[dependencies]
chrono = "*"
moka = { version = "*", features = ["future"] }
parking_lot = "*"
redis = { version = "*", features = ["tokio-comp", "connection-manager"] }
