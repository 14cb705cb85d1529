[package]
name = "fm"
version = "0.1.0"
edition = "2021"
publish = false

[dependencies]
chrono = "*"
futures = "*"
notify = "*"
tokio = { version = "*", features = ["full"] }
