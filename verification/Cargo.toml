[package]
name = "bluos"
version = "0.1.0"
edition = "2021"
publish = false

[dependencies]
reqwest = { version = "*", default-features = false }
thiserror = "*"
tokio = { version = "*", default-features = false, features = ["rt", "rt-multi-thread", "sync", "time"] }
zeroconf = "*"
