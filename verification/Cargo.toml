[package]
name = "jobwatch"
version = "0.1.0"
edition = "2021"
publish = false

[dependencies]
chrono = "=0.4.45"
chrono-tz = "=0.10.4"
cron = "=0.17.0"
validify = "=2.0.0"
serde = { version = "=1.0.228", features = ["derive"] }
serde_json = "=1.0.151"
tokio = { version = "=1.53.2", features = ["rt-multi-thread", "macros", "time", "net"] }
reqwest = { version = "=0.13.5", default-features = false, features = ["json"] }
lettre = { version = "=0.11.23", default-features = false, features = ["smtp-transport", "builder", "rustls-tls"] }
uuid = { version = "=1.27.0", features = ["v4"] }
axum = "=0.8.9"
