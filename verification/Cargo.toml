[package]
name = "feedscan"
version = "0.1.0"
edition = "2021"
publish = false

[dependencies]
chrono = "*"
colored = "*"
serde_json = "*"

[dependencies.reqwest]
version = "*"
default-features = false
features = ["blocking"]
