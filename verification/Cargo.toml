[package]
name = "nature"
version = "0.1.0"
edition = "2021"
publish = false

[dependencies]
chrono = "0.4"
lru_time_cache = "0.11"
rand = "0.8"
uuid = { version = "1", features = ["v4"] }
