[package]
name = "usage-deck"
version = "0.1.0"
edition = "2021"
publish = false

[dependencies]
async-trait = "0.1"
base64 = "0.22"
chrono = { version = "0.4", default-features = false, features = ["clock", "std"] }
dashmap = "6"
log = "0.4"
openaction = "*"
reqwest = { version = "0.12", default-features = false, features = ["rustls-tls"] }
serde = { version = "1", features = ["derive"] }
serde_json = "1"
simplelog = "0.12"
thiserror = "2"
tokio = { version = "1", features = ["rt-multi-thread", "macros", "time", "fs", "sync"] }
