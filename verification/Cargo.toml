[package]
name = "tower"
version = "0.4.1"
edition = "2021"
publish = false

[dependencies]
rand = { version = "0.8", features = ["small_rng"] }
indexmap = "2"
tokio = { version = "1", features = ["sync", "time", "rt", "macros"] }
tokio-util = "0.7"
futures-util = "0.3"
futures-core = "0.3"
pin-project-lite = "0.2"
