[package]
name = "parallax_kernel"
version = "0.1.0"
edition = "2021"
publish = false

[dependencies]
base64 = "=0.22.1"
uuid = { version = "=1.29.0", features = ["v4"] }
chrono = "=0.4.45"
log = "=0.4.34"
env_logger = "=0.11.11"
tokio = { version = "=1.54.1", features = ["full"] }
serde_json = "=1.0.154"
axum = "=0.6.20"
async-trait = "=0.1.92"
russh = "=0.38.0"
russh-keys = "=0.38.0"
fe2o3-amqp = "0.18"
sqlx = { version = "=0.8.6", default-features = false, features = ["sqlite", "runtime-tokio"] }
