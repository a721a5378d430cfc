[package]
name = "seagull"
version = "0.1.0"
edition = "2021"
publish = false

[dependencies]
anyhow = "1"
axum = "0.5"
bytes = "1"
chrono = "0.4"
diesel = { version = "1.4", features = ["postgres", "r2d2"] }
dotenv = "0.15"
hyper = { version = "0.14", features = ["full"] }
juniper = "0.15"
juniper_hyper = "0.8"
mime = "0.3"
mime_guess = "=2.0.4"
tokio = { version = "1", features = ["full"] }
tokio-util = { version = "0.7", features = ["io"] }
tower = "0.4"
tower-http = { version = "0.3", features = ["compression-full", "trace"] }
uuid = { version = "0.8", features = ["v4"] }
