[package]
name = "poly-last-new"
version = "0.1.0"
edition = "2021"
publish = false

[dependencies]
sha2 = "=0.10.9"
hmac = "=0.12.1"
uuid = { version = "=1.29.0", features = ["v4"] }
getrandom = "=0.4.3"
chrono = "=0.4.45"
anyhow = "=1.0.104"
tokio = { version = "=1.54.1", features = ["full"] }
reqwest = { version = "=0.12.28", default-features = false, features = ["json", "rustls-tls"] }
serde = { version = "=1.0.229", features = ["derive"] }
serde_json = "=1.0.154"
tokio-tungstenite = { version = "=0.30.0", features = ["rustls-tls-webpki-roots"] }
futures-util = "=0.3.34"
async-trait = "=0.1.92"
dotenvy = "=0.15.7"
rustls = "=0.23.46"
rust_decimal = "=1.43.0"
