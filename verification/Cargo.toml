[package]
name = "omninova_gateway"
version = "0.1.0"
edition = "2021"
publish = false

[dependencies]
aes = "=0.8.4"
axum = "0.7"
base64 = "=0.22.1"
chrono = { version = "=0.4.45", default-features = false, features = ["clock", "std"] }
r2d2 = "0.8"
r2d2_sqlite = "*"
serde = { version = "=1.0.229", features = ["derive"] }
serde_json = "=1.0.154"
sha2 = "=0.10.9"
time = { version = "=0.3.55", features = ["formatting"] }
uuid = { version = "=1.29.0", features = ["v4"] }
