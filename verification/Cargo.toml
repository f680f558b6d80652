[package]
name = "front_door"
version = "0.1.0"
edition = "2021"
publish = false

[dependencies]
anyhow = "1"
axum = "0.7"
axum-server = "0.8"
hyper-util = { version = "0.1", features = ["client-legacy", "http1", "tokio"] }
log = "0.4"
rustls-acme = { version = "*", features = ["axum"] }
serde = { version = "1", features = ["derive"] }
tokio = { version = "1", features = ["full"] }
tokio-stream = "0.1"
toml = "*"
tower = { version = "*", features = ["util"] }
tower-http = { version = "*", features = ["fs"] }
