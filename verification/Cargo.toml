[package]
name = "cached_redis"
version = "0.1.0"
edition = "2021"
publish = false

[dependencies]
serde = { version = "=1.0.229", features = ["derive"] }
serde_json = "=1.0.151"
r2d2 = "=0.8.10"
thiserror = "=2.0.21"
