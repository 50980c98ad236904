[package]
name = "collateral_vault"
version = "0.1.0"
edition = "2021"
publish = false

[dependencies]
solana-sdk = "*"
spl-associated-token-account = "*"
