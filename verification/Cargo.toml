[package]
name = "axum_csrf"
version = "0.1.0"
edition = "2021"
publish = false

[dependencies]
cookie = { version = "0.18", features = ["private", "key-expansion"] }
hmac = "0.12"
sha2 = "0.10"
base64ct = { version = "1", features = ["alloc"] }
rand = "0.8"
http = "1"
axum-core = "*"
async-trait = "*"
tower-layer = "*"
tower-service = "*"
serde = { version = "1", features = ["derive"] }
