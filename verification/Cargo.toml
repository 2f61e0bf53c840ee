[package]
name = "minitweet"
version = "0.1.0"
edition = "2021"
publish = false

[dependencies]
sha2 = "=0.10.9"
getrandom = "0.2"
chrono = "=0.4.45"
serde = { version = "=1.0.229", features = ["derive"] }
axum = "=0.4.8"
tokio = { version = "1", features = ["rt"] }
tokio-postgres = { version = "=0.7.18", features = ["with-chrono-0_4"] }
bb8 = "=0.7.1"
bb8-postgres = "=0.7.0"
