[package]
name = "echo"
version = "0.1.0"
edition = "2021"
publish = false

[dependencies]
anyhow = "*"
clap = { version = "*", features = ["derive"] }
ctrlc = "*"
tempfile = "*"
tokio = { version = "*", features = ["rt-multi-thread", "macros", "net", "io-util", "sync", "signal", "time"] }
tracing = "*"
