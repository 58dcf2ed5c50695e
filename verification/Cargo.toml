[package]
name = "ledgers"
version = "0.1.0"
edition = "2021"
publish = false

[dependencies]
anyhow = "1"
arrow-array = "*"
arrow-schema = "*"
axum = "0.7"
chrono = { version = "0.4", default-features = false, features = ["std", "clock", "serde"] }
parquet = { version = "*", default-features = false, features = ["arrow"] }
reqwest = { version = "0.12", default-features = false, features = ["json"] }
serde = { version = "1", features = ["derive"] }
serde_json = "1"
thiserror = "1"
tokio = { version = "1", features = ["macros", "rt-multi-thread", "sync", "time", "net"] }
tracing = "0.1"
tracing-subscriber = { version = "0.3", features = ["env-filter"] }
yahoo_finance_api = "*"
