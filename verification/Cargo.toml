[package]
name = "rnk"
version = "0.1.0"
edition = "2021"
publish = false

[dependencies]
unicode-width = "0.2"
unicode-segmentation = "1"
crossterm = "0.28"
taffy = "0.7"
tokio = { version = "1", features = ["rt-multi-thread", "sync", "time", "fs", "process", "macros", "io-util"] }
reqwest = { version = "0.12", default-features = false }
