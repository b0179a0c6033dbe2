[package]
name = "repeaterpi"
version = "0.1.0"
edition = "2021"
publish = false

[dependencies]
chrono = "0.4"
env_logger = "*"
futures = "0.3"
influxdb = { version = "0.7", features = ["derive"] }
log = "0.4"
serde = { version = "1", features = ["derive"] }
tokio = { version = "1", features = ["macros", "rt-multi-thread"] }
tokio-serial = "5"
tokio-util = { version = "0.7", features = ["codec"] }
toml = "0.8"
vcgencmd = "*"
