[package]
name = "l1_sync"
version = "0.1.0"
edition = "2021"
publish = false

[dependencies]
anyhow = "1"
hyper = "0.14"
serde = { version = "1", features = ["derive"] }
serde_json = "1"
starknet-types-core = "*"
tokio = { version = "1", features = ["macros", "rt", "sync", "time"] }
tokio-util = { version = "0.7", features = ["rt"] }
