[package]
name = "xfl"
version = "0.1.0"
edition = "2021"
publish = false

[dependencies]
uuid = { version = "=1.27.0", features = ["v4"] }
tokio = { version = "=1.53.2", features = ["macros", "process", "io-util", "rt-multi-thread", "signal", "sync", "time"] }
clap = { version = "=4.6.7", features = ["derive"] }
anyhow = "=1.0.104"
