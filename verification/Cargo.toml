[package]
name = "ua_client"
version = "0.1.0"
edition = "2021"
publish = false

[dependencies]
async-opcua = { version = "=0.19.0", features = ["client", "json"] }
tokio = { version = "=1.54.1", features = ["full"] }
serde = { version = "=1.0.229", features = ["derive"] }
serde_json = "=1.0.154"
anyhow = "=1.0.104"
tracing = "=0.1.44"
tracing-subscriber = { version = "=0.3.23", features = ["env-filter"] }
clap = { version = "=4.6.7", features = ["derive"] }
cursive = { version = "=0.21.1", default-features = false, features = ["crossterm-backend"] }
arboard = { version = "=3.7.0", default-features = false }
