[package]
name = "lending_pool"
version = "0.1.0"
edition = "2021"
publish = false

[dependencies]
soroban-sdk = "20.5.0"
soroban-fixed-point-math = "1.0.0"
cast = { version = "0.3.0", default-features = false }
sep-40-oracle = "0.2.0"
sep-41-token = "0.3.0"
