[package]
name = "repo-settings-sync"
version = "0.1.0"
edition = "2021"
publish = false

[dependencies]
anyhow = "=1.0.104"
chrono = { version = "=0.4.45", features = ["serde"] }
clap = { version = "=4.6.7", features = ["cargo"] }
console = "=0.16.6"
const_format = "=0.2.37"
derive_builder = "=0.20.2"
log = "=0.4.34"
reqwest = { version = "=0.13.5", features = ["blocking", "json"] }
serde = { version = "=1.0.229", features = ["derive"] }
serde_json = "=1.0.154"
tracing = "=0.1.44"
tracing-subscriber = "=0.3.23"
