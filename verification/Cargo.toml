[package]
name = "yande_dl"
version = "0.2.0"
edition = "2021"
publish = false

[dependencies]
md-5 = "0.10"
uuid = { version = "1", features = ["v4"] }
chrono = { version = "0.4", default-features = false, features = ["clock", "std"] }
serde = { version = "1", features = ["derive"] }
serde_json = "1"
reqwest = { version = "0.12", default-features = false, features = ["json", "rustls-tls"] }
tokio = { version = "1", features = ["fs", "time", "sync", "macros", "rt-multi-thread"] }
tokio-util = "0.7"
futures = "0.3"
anyhow = "1"
thiserror = "2"
tracing = "0.1"
tracing-subscriber = { version = "0.3", features = ["env-filter"] }
directories = "6"
async-trait = "0.1"
