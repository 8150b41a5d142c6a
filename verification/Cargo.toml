[package]
name = "rosregview"
version = "0.1.0"
edition = "2021"
publish = false

[dependencies]
nt-hive = "=0.3.0"
zerocopy = "=0.8.63"
clap = { version = "=4.6.7", features = ["derive"] }
clap_complete = "=4.6.11"
clap_mangen = "=0.3.3"
serde = { version = "=1.0.229", features = ["derive"] }
serde_json = "=1.0.154"
anyhow = "=1.0.104"
