[package]
name = "mcc_frontend_core"
version = "0.1.0"
edition = "2021"
publish = false

[dependencies]
chrono = { version = "=0.4.45", features = ["serde"] }
url = "=2.5.8"
gloo = "=0.12.0"
serde = { version = "=1.0.229", features = ["derive"] }
serde_url_params = "=0.2.1"
