[package]
name = "yunying_server"
version = "0.1.0"
edition = "2021"
publish = false

[dependencies]
base64 = "0.22"
chrono = "0.4"
urlencoding = "2"
image = { version = "0.24", default-features = false, features = ["png"] }
serde = { version = "1", features = ["derive"] }
serde_json = "1"
anyhow = "1"
tokio = { version = "1", features = ["rt", "sync", "time", "fs", "macros"] }
async-trait = "0.1"
uuid = { version = "1", features = ["v4"] }
webbrowser = "1"
reqwest = { version = "0.12", default-features = false, features = ["json"] }
futures = "0.3"
tracing = "0.1"
tokio-util = "0.7"
