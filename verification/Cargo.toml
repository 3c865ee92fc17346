[package]
name = "integration-aggressor"
version = "0.1.0"
edition = "2021"
publish = false

[dependencies]
chrono = "0.4"
crossterm = "0.28"
palc = "*"
ratatui = "0.29"
sysinfo = "0.30"
tokio = { version = "1", features = ["fs", "io-util", "macros", "process", "rt-multi-thread", "sync", "time"] }
walkdir = "2"
