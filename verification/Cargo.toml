[package]
name = "relay_board"
version = "0.1.0"
edition = "2021"
publish = false

[dependencies]
anyhow = "1"
log = "0.4"
thiserror = "*"
tokio = { version = "1", features = ["rt", "time", "sync", "net"] }
tokio-modbus = { version = "*", default-features = false, features = ["tcp-server"] }
esp-idf-svc = "*"
esp-idf-hal = "*"
