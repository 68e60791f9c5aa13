[package]
name = "relay_bot"
version = "0.1.0"
edition = "2021"
publish = false

[dependencies]
url = "2"
matrix-sdk = { version = "0.6", default-features = false, features = ["rustls-tls"] }
tokio = { version = "1", features = ["macros", "rt-multi-thread", "time"] }
anyhow = "1"
tracing-subscriber = "0.3"
