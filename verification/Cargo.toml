[package]
name = "kvstore_plus_plus"
version = "0.1.0"
edition = "2021"
publish = false

[dependencies]
bytes = "=1.12.1"
crc32fast = "=1.5.3"
fxhash = "=0.2.1"
base64 = "=0.21.7"
tokio = { version = "=1.54.1", features = ["full"] }
parking_lot = "=0.12.5"
serde = { version = "=1.0.229", features = ["derive"] }
serde_json = "=1.0.154"
toml = "=0.8.23"
thiserror = "=1.0.69"
tracing = "=0.1.44"
tracing-subscriber = { version = "=0.3.23", features = ["env-filter"] }
axum = "=0.6.20"
tower-http = { version = "=0.4.4", features = ["trace"] }
uuid = { version = "=1.29.0", features = ["v4"] }
chrono = { version = "=0.4.45", features = ["serde"] }
clap = { version = "=4.6.7", features = ["derive"] }
jsonwebtoken = "=8.3.0"
scrypt = "=0.11.0"
rand = "=0.8.8"
prometheus = "=0.13.4"
lazy_static = "=1.5.1"
dashmap = "=5.5.3"
aws-sdk-s3 = "=1.152.0"
