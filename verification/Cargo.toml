[package]
name = "contrapunk"
version = "0.1.0"
edition = "2021"
publish = false

[dependencies]
wmidi = "=4.0.11"
rand = "=0.8.8"
anyhow = "=1.0.104"
serde = { version = "=1.0.229", features = ["derive"] }
serde_json = "=1.0.154"
midir = "0.10"
clap = { version = "4", features = ["derive"] }
