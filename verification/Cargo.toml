[package]
name = "bloom_filter_experiments"
version = "0.1.0"
edition = "2021"
publish = false

[dependencies]
murmur3 = "*"
rand = "*"
uuid = { version = "*", features = ["v4"] }
clap = { version = "*", features = ["derive"] }
