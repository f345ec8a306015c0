[package]
name = "sol_wallet"
version = "0.1.0"
edition = "2021"
publish = false

[dependencies]
clearscreen = "*"
colored = "*"
solana-sdk = "1.18"
spinoff = "*"
