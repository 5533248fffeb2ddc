[package]
name = "transcriber"
version = "0.1.0"
edition = "2021"
publish = false

[dependencies]
anyhow = "*"
chrono = "*"
clap = "*"
hound = "*"
tokio = { version = "*", features = ["macros", "rt-multi-thread", "process", "fs"] }
tracing = "*"
tracing-subscriber = "*"
