[package]
name = "linera_paper_eval"
version = "0.1.0"
edition = "2021"
publish = false

[dependencies]
anyhow = "1"
csv-async = { version = "1", features = ["tokio"] }
linera-base = { version = "*", default-features = false }
rand = "0.9"
tokio = { version = "1", features = ["rt-multi-thread", "macros", "time", "sync", "fs"] }
tokio-util = "0.7"
tracing = "0.1"
tracing-subscriber = { version = "0.3", features = ["env-filter"] }
