[package]
name = "tx_processor"
version = "0.1.0"
edition = "2021"
publish = false

[dependencies]
csv = "1"
rust_decimal = "1"
thiserror = "2"
