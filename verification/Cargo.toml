[package]
name = "payment_ledger"
version = "0.1.0"
edition = "2021"
publish = false

[dependencies]
stellar_sdk = "=0.1.4"
chrono = "=0.4.45"
anyhow = "=1.0.104"
