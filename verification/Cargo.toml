[package]
name = "http_server"
version = "0.1.0"
edition = "2021"
publish = false

[dependencies]
anyhow = "1"
clap = { version = "4", features = ["derive"] }
nom = "7"
tokio = { version = "1", features = ["fs", "io-util", "macros", "net", "rt-multi-thread"] }
