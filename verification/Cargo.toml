[package]
name = "cabbage"
version = "0.1.0"
edition = "2021"
publish = false

[dependencies]
uuid = { version = "*", features = ["v4"] }
rand = "*"
anyhow = "*"
log = "*"
tokio = { version = "*", features = ["full"] }
tokio-util = { version = "*", features = ["codec"] }
tokio-stream = "*"
tower = { version = "*", features = ["full"] }
futures = "*"
futures-util = "*"
redis-protocol = { version = "*", features = ["codec"] }
clap = { version = "*", features = ["derive"] }
simplelog = "*"
