[package]
name = "million"
version = "0.1.0"
edition = "2021"
publish = false

[dependencies]
url = "=2.5.8"
scraper = "=0.29.0"
image = "=0.25.10"
exponential-backoff = "=1.2.1"
chrono = "=0.4.45"
serde = { version = "=1.0.229", features = ["derive"] }
serde_json = "=1.0.154"
anyhow = "=1.0.104"
reqwest = "=0.13.5"
tokio = { version = "=1.54.1", features = ["full"] }
futures = "=0.3.34"
clap = { version = "=4.6.7", features = ["derive", "env"] }
tracing = "=0.1.44"
tracing-subscriber = { version = "=0.3.23", features = ["env-filter"] }
