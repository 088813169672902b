[package]
name = "eth_filter"
version = "0.1.0"
edition = "2021"
publish = false

[dependencies]
ethereum-types = "*"
jsonrpc-core = "*"
parking_lot = "*"
