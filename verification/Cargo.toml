[package]
name = "rust-axum-server"
version = "0.1.0"
edition = "2021"
publish = false

[dependencies]
axum = "=0.8.9"
deadpool-sqlite = { version = "*", features = ["rt_tokio_1"] }
derivative = "=2.2.0"
dotenvy = "=0.15.7"
futures = "=0.3.34"
ntex = { version = "2", features = ["tokio"] }
num_cpus = "=1.17.0"
redis = { version = "=1.8.1", features = ["tokio-comp", "connection-manager"] }
reqwest = { version = "=0.13.5", default-features = false }
rusqlite = { version = "=0.35.0", features = ["bundled", "time"] }
serde = { version = "=1.0.229", features = ["derive"] }
serde_json = "=1.0.154"
socket2 = { version = "=0.6.5", features = ["all"] }
thiserror = "=2.0.21"
time = { version = "=0.3.55", features = ["serde", "formatting", "parsing"] }
tokio = { version = "=1.54.1", features = ["full"] }
tokio-rusqlite-folk = "=0.6.0"
tower-http = { version = "=0.7.1", features = ["set-header"] }
tracing = "=0.1.44"
tracing-subscriber = "=0.3.23"
validator = { version = "=0.21.0", features = ["derive"] }
