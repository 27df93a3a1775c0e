[package]
name = "withdrawals_meterer"
version = "0.1.0"
edition = "2021"
publish = false

[dependencies]
ethers-core = "*"
metrics = "*"
