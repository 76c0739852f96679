[package]
name = "miner-core"
version = "0.1.0"
edition = "2021"
publish = false

[dependencies]
chrono = { version = "0.4", default-features = false, features = ["std", "clock"] }
nalgebra = "*"
serde_json = "1"
statrs = "*"
