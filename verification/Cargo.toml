[package]
name = "sensor_modbus"
version = "0.1.0"
edition = "2021"
publish = false

[dependencies]
anyhow = "1"
log = "0.4"
tokio = { version = "1", features = ["rt", "net", "sync", "time", "macros"] }
tokio-modbus = { version = "*", default-features = false, features = ["tcp-server"] }
esp-idf-svc = "*"
