[package]
name = "api_core"
version = "0.1.0"
edition = "2021"
publish = false

[dependencies]
anyhow = "=1.0.104"
aws-credential-types = "=1.3.1"
aws-sdk-s3 = "=1.152.0"
axum = "=0.6.20"
chrono = "=0.4.45"
env_logger = "=0.11.11"
jsonwebtoken = "=9.3.1"
log = "=0.4.34"
once_cell = "=1.21.4"
serde = { version = "=1.0.229", features = ["derive"] }
serde_json = { version = "=1.0.154", features = ["preserve_order"] }
thiserror = "=1.0.69"
tokio = { version = "=1.54.1", features = ["macros", "rt-multi-thread"] }
uuid = { version = "=1.29.0", features = ["v4", "serde"] }
