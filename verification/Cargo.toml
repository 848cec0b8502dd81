[package]
name = "weather"
version = "0.1.0"
edition = "2021"
publish = false

[dependencies]
hyper = { version = "0.14", features = ["client", "http1", "tcp", "runtime"] }
tokio = { version = "1", features = ["rt", "rt-multi-thread", "macros"] }
filetime = "*"
time = "*"
