[package]
name = "leads"
version = "0.1.0"
edition = "2021"
publish = false

[dependencies]
anyhow = "=1.0.104"
chrono = { version = "=0.4.45", features = ["serde"] }
clap = { version = "=4.6.7", features = ["derive"] }
dateparser = "=0.3.1"
dotenv = "=0.15.0"
serde = { version = "=1.0.229", features = ["derive"] }
serde_yaml = "=0.9.34"
