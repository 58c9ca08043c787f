[package]
name = "jsserve"
version = "0.1.0"
edition = "2021"
publish = false

[dependencies]
async-trait = "=0.1.92"
axum = "=0.7.9"
axum-login = "=0.16.0"
deno_core = "=0.311.0"
serde_json = { version = "=1.0.154", features = ["preserve_order"] }
sqlx = { version = "=0.8.6", features = ["any", "migrate", "runtime-tokio", "sqlite"] }
tokio = { version = "=1.54.1", features = ["full"] }
