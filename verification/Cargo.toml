[package]
name = "lada_gui"
version = "0.1.0"
edition = "2021"
publish = false

[dependencies]
regex = "1"
serde = { version = "1", features = ["derive"] }
serde_json = "1"
sysinfo = "0.33"
chrono = "0.4"
tokio = { version = "1", features = ["process", "io-util", "sync", "time", "rt", "macros"] }
