[package]
name = "nishack"
version = "0.1.0"
edition = "2021"
publish = false

[dependencies]
anyhow = "=1.0.104"
axum = "0.8"
base64 = "=0.22.1"
chrono = { version = "=0.4.45", default-features = false, features = ["clock", "serde", "std"] }
futures-util = "=0.3.34"
hostname = "0.4"
image = { version = "=0.25.10", default-features = false, features = ["jpeg"] }
local-ip-address = "0.6"
redis = { version = "0.27", default-features = false, features = ["tokio-comp"] }
reqwest = { version = "0.12", default-features = false, features = ["json"] }
serde = { version = "=1.0.229", features = ["derive"] }
serde_json = "=1.0.154"
sha2 = "=0.10.9"
sysinfo = { version = "0.31", default-features = false, features = ["system"] }
tokio = { version = "1", features = ["rt-multi-thread", "macros", "time", "net", "sync"] }
tokio-tungstenite = "0.26"
toml = "=0.8.23"
tower-http = { version = "0.6", features = ["cors"] }
tracing = "=0.1.44"
tracing-subscriber = { version = "0.3", features = ["env-filter"] }
