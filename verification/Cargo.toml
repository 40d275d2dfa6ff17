[package]
name = "sprocket_metrics"
version = "0.1.0"
edition = "2021"
publish = false

[dependencies]
anyhow = "=1.0.104"
axum = "=0.8.9"
chrono = "=0.4.45"
clap = { version = "=4.6.7", features = ["derive"] }
cloud-copy = "=0.12.1"
colored = "=3.1.1"
crankshaft-events = { version = "=0.3.0", features = ["serde"] }
indexmap = "=2.14.2"
serde = { version = "=1.0.229", features = ["derive"] }
serde_json = { version = "=1.0.154", features = ["preserve_order"] }
sqlx = { version = "=0.8.6", default-features = false, features = ["migrate"] }
thiserror = "=2.0.21"
tokio = { version = "=1.54.1", features = ["sync", "time", "macros", "rt", "rt-multi-thread"] }
tokio-retry2 = "=0.9.1"
tokio-util = "=0.7.20"
tracing = "=0.1.44"
utoipa = { version = "=5.5.0", features = ["uuid"] }
uuid = { version = "=1.29.0", features = ["serde"] }
whoami = "=2.1.3"
