[package]
name = "oss_bot"
version = "0.1.0"
edition = "2021"
publish = false

[dependencies]
url = "=2.5.8"
rand = "=0.10.3"
anyhow = "=1.0.104"
serde_json = "=1.0.151"
axum = "=0.8.9"
tokio = { version = "=1.53.2", features = ["rt-multi-thread", "macros"] }
hyper = "=1.12.0"
http = "=1.5.0"
slack-morphism = { version = "=2.29.0", features = ["hyper", "axum"] }
redis = { version = "=1.7.1", features = ["tokio-comp"] }
tracing = "=0.1.44"
tracing-subscriber = { version = "=0.3.23", features = ["env-filter"] }
