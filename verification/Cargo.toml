[package]
name = "thegent-cache"
version = "0.1.0"
edition = "2021"
publish = false

[dependencies]
lru = "*"
dashmap = "*"
parking_lot = "*"
thiserror = "*"
clap = { version = "*", features = ["derive"] }
