[package]
name = "svoy_share"
version = "0.1.0"
edition = "2021"
publish = false

[dependencies]
localsend = "=0.2.2"
tokio = { version = "=1.53.2", features = ["rt-multi-thread", "sync", "time", "macros"] }
reqwest = "0.12"
