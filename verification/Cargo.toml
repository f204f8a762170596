[package]
name = "mf1"
version = "0.1.0"
edition = "2021"
publish = false

[dependencies]
cosmwasm-std = { version = "=3.0.10", features = ["stargate"] }
cosmwasm-schema = "=3.0.10"
cw-storage-plus = "=3.0.1"
cw-utils = "=3.0.0"
thiserror = "=2.0.21"
serde_json = "=1.0.151"
