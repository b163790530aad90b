[package]
name = "cache_warmer"
version = "0.1.0"
edition = "2021"
publish = false

[dependencies]
hyper = { version = "1", features = ["client", "http1"] }
hyper-util = { version = "0.1", features = ["client-legacy", "http1", "tokio"] }
hyper-tls = "0.6"
http-body-util = "0.1"
tokio = { version = "1", features = ["rt-multi-thread", "time"] }
clap = "4"
pbr = "1"
