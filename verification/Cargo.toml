[package]
name = "auth_core"
version = "0.1.0"
edition = "2021"
publish = false

[dependencies]
jsonwebtoken = { version = "=11.1.0", features = ["rust_crypto"] }
base64 = "=0.22.1"
chrono = "=0.4.45"
axum = "=0.8.9"
axum-extra = { version = "=0.12.6", features = ["cookie"] }
serde = { version = "=1.0.229", features = ["derive"] }
serde_json = "=1.0.151"
tokio = { version = "=1.53.2", features = ["rt-multi-thread", "macros", "net"] }
dotenvy = "=0.15.7"
