[package]
name = "spark_matcher"
version = "0.1.0"
edition = "2021"
publish = false

[dependencies]
fuels = "0.66"
futures-util = "0.3"
log = "0.4"
tokio = { version = "1", default-features = false, features = ["rt-multi-thread", "time", "sync", "macros"] }
