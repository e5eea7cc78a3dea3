[package]
name = "carillon_server"
version = "0.1.0"
edition = "2021"
publish = false

[dependencies]
age = "=0.11.5"
anyhow = "=1.0.104"
base64 = "=0.22.1"
rand = "=0.10.3"
secrecy = "=0.10.3"
serde = { version = "=1.0.229", features = ["derive"] }
tokio = { version = "=1.54.1", features = ["io-util", "sync", "time", "rt", "macros"] }
zeroize = "=1.9.1"
