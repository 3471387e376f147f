[package]
name = "ema_crossover"
version = "0.1.0"
edition = "2021"
publish = false

[dependencies]
base64-url = "*"
chrono = "0.4"
reqwest = { version = "0.11", default-features = false, features = ["rustls-tls"] }
ring = "0.17"
serde_json = "1"
tokio = { version = "1", features = ["macros", "rt-multi-thread", "time"] }
