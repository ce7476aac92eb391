[package]
name = "file_server"
version = "0.1.0"
edition = "2021"
publish = false

[dependencies]
percent-encoding = "2"
mime_guess = "2"
tokio = { version = "1", features = ["full"] }
hyper = { version = "0.14", features = ["full"] }
tokio-util = { version = "0.7", features = ["io"] }
clap = { version = "4", features = ["derive"] }
chrono = "0.4"
