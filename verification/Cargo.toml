[package]
name = "deep_research"
version = "0.1.0"
edition = "2021"
publish = false

[dependencies]
axum = "0.8"
chrono = { version = "0.4", features = ["serde"] }
dotenvy = "0.15"
jsonwebtoken = "9"
rig-core = { version = "=0.43.0", features = ["reqwest"] }
rusqlite = { version = "*", features = ["bundled"] }
serde = { version = "1", features = ["derive"] }
serde_json = "1"
tavily = "=2.1.0"
thiserror = "2"
tokio = { version = "1", features = ["full"] }
tokio-rusqlite = "=0.8.0"
tower-http = { version = "*", features = ["cors"] }
tracing = "0.1"
tracing-subscriber = { version = "0.3", features = ["env-filter"] }
