[package]
name = "semicircle"
version = "0.1.0"
edition = "2021"
publish = false

[dependencies]
tokio = { version = "*", features = ["net", "rt-multi-thread", "sync", "time", "macros"] }
tokio-util = { version = "*", features = ["codec", "net"] }
futures = "*"
async-trait = "*"
bytes = "*"

[dev-dependencies]
radius-parser = "*"
