[package]
name = "sitwego_api"
version = "0.1.0"
edition = "2021"
publish = false

[dependencies]
argon2 = { version = "=0.5.3", features = ["std"] }
nanoid = "=0.4.0"
chrono = "=0.4.45"
rust_decimal = "=1.43.0"
serde = { version = "=1.0.229", features = ["derive"] }
serde_json = "=1.0.154"
time = "=0.3.55"
tokio = { version = "=1.54.1", features = ["rt-multi-thread", "macros", "sync", "time", "signal"] }
tracing = "=0.1.44"
tracing-subscriber = "0.3"
dotenv = "0.15"
envy = "0.4"
