[package]
name = "biubo_waf"
version = "0.1.0"
edition = "2021"
publish = false

[dependencies]
regex = "1"
hmac = "0.12"
sha2 = "0.10"
hex = "0.4"
uuid = { version = "1", features = ["v4"] }
serde = { version = "1", features = ["derive"] }
serde_json = "1"
chrono = "0.4"
tokio = { version = "1", features = ["full"] }
axum = { version = "0.8", features = ["ws"] }
dashmap = "6"
parking_lot = "0.12"
once_cell = "1"
tracing = "0.1"
tracing-subscriber = { version = "0.3", features = ["env-filter"] }
url = "2"
rmp-serde = "1"
async-trait = "0.1"
reqwest = { version = "0.12", default-features = false, features = ["json"] }
tower-http = { version = "0.6", features = ["cors"] }
mimalloc = "0.1"
