[package]
name = "emu2rs"
version = "0.1.0"
edition = "2021"
publish = false

[dependencies]
anyhow = "*"
clap = "*"
futures = "*"
influxdb2 = "*"
serialport = { version = "*", default-features = false }
tokio = { version = "*", features = ["macros", "rt-multi-thread"] }
