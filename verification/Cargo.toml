[package]
name = "timeboost_contract"
version = "0.1.0"
edition = "2021"
publish = false

[dependencies]
alloy = { version = "*", default-features = false, features = ["std", "rpc-types"] }
anyhow = "*"
futures = "*"
rand = "*"
tracing = "*"
