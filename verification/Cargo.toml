[package]
name = "gas_miner"
version = "0.1.0"
edition = "2021"
publish = false

[dependencies]
alloy-primitives = "1"
rand = "0.8"
sha3 = "0.10"
tokio = { version = "1", features = ["macros", "rt-multi-thread"] }
node-bindgen = "*"
