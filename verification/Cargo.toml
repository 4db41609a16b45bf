[package]
name = "mac4nick"
version = "0.1.0"
edition = "2021"
publish = false

[dependencies]
anyhow = "1"
axum = "0.8"
axum-extra = { version = "0.10", features = ["cookie"] }
axum-messages = "0.8"
envconfig = "0.11"
http = "1"
ipnetwork = "0.21"
reqwest = { version = "0.12", features = ["json", "cookies", "rustls-tls"], default-features = false }
rumqttc = "0.24"
serde = { version = "1", features = ["derive"] }
serde_json = "1"
sqlx = { version = "0.8", features = ["mysql", "runtime-tokio", "macros"], default-features = false }
tokio = { version = "1", features = ["full"] }
tower-http = { version = "0.6", features = ["fs", "trace"] }
tower-sessions = "0.14"
tracing = "0.1"
tracing-subscriber = { version = "0.3", features = ["env-filter"] }
