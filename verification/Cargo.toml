[package]
name = "webtarot"
version = "0.1.0"
edition = "2021"
publish = false

[dependencies]
rand = "*"
uuid = { version = "*", features = ["v4"] }
chrono = "*"
serde = { version = "*", features = ["derive"] }
serde_json = "*"
tokio = { version = "*", features = ["rt-multi-thread", "macros", "sync", "net", "time"] }
axum = { version = "*", features = ["ws"] }
futures-util = "*"
reqwest = { version = "*", default-features = false, features = ["json", "rustls-tls"] }
