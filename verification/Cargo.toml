[package]
name = "egg"
version = "0.1.0"
edition = "2021"
publish = false

[dependencies]
anyhow = "1"
chrono = "0.4"
clap = { version = "4", features = ["derive"] }
colored = "2"
cron = "0.12"
nix = { version = "0.27", features = ["signal", "process"] }
serde = { version = "1", features = ["derive"] }
serde_json = "1"
tabled = "0.15"
tokio = { version = "1", features = ["full"] }
toml = "0.8"
tracing-subscriber = { version = "0.3", features = ["env-filter"] }
