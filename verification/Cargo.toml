[package]
name = "luffy_ota"
version = "0.1.0"
edition = "2021"
publish = false

[dependencies]
semver = "=1.0.28"
glob = "=0.3.4"
anyhow = "=1.0.104"
serde = { version = "=1.0.229", features = ["derive"] }
serde_json = "=1.0.154"
tokio = { version = "=1.54.1", features = ["rt-multi-thread", "macros", "time", "fs", "sync", "signal"] }
reqwest = { version = "=0.12.28", features = ["json"] }
tracing = "=0.1.44"
tracing-subscriber = "*"
rumqttc = { version = "*", default-features = false }
config = { version = "*", default-features = false, features = ["toml"] }
