[package]
name = "dende_rs"
version = "0.1.0"
edition = "2021"
publish = false

[dependencies]
anyhow = "=1.0.104"
chrono = "=0.4.45"
clap = { version = "=4.6.7", features = ["derive", "env"] }
env_logger = "=0.11.11"
log = "=0.4.34"
notify = "=8.2.0"
regex = "=1.13.1"
serde = { version = "=1.0.229", features = ["derive"] }
serde_json = "=1.0.151"
serde_yaml = "=0.9.34"
takecell = "<0.1.2"
teloxide = "=0.16.0"
tokio = { version = "=1.53.2", features = ["macros", "rt-multi-thread", "sync", "time", "signal"] }
virustotal3 = "=3.0.3"
walkdir = "=2.5.0"
