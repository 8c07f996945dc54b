[package]
name = "mctest"
version = "0.1.0"
edition = "2021"
publish = false

[dependencies]
chrono = "=0.4.45"
socket2 = { version = "=0.6.5", features = ["all"] }
sysinfo = "=0.40.1"
tokio = { version = "=1.54.1", features = ["net", "rt", "time", "macros", "sync"] }
