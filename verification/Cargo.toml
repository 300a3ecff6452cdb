[package]
name = "hmdl"
version = "0.1.0"
edition = "2021"
publish = false

[dependencies]
acme-lib = "=0.8.2"
async-trait = "=0.1.92"
axum = "=0.5.17"
axum-server = { version = "=0.4.7", features = ["tls-rustls"] }
chrono = "=0.4.45"
cloudflare = "=0.10.1"
hyper = "=0.14.32"
local-ip-address = "=0.5.7"
rustls = "=0.20.9"
serde = { version = "=1.0.229", features = ["derive"] }
serde_json = "=1.0.151"
sqlx = { version = "=0.6.3", features = ["runtime-tokio-rustls", "sqlite", "chrono"] }
thiserror = "=1.0.69"
tokio = { version = "=1.53.2", features = ["full"] }
trust-dns-server = { version = "=0.22.1", features = ["resolver"] }
