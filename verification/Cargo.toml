[package]
name = "loan_settlement"
version = "0.1.0"
edition = "2021"
publish = false

[dependencies]
anyhow = "=1.0.104"
bitcoin = "=0.32.102"

[dev-dependencies]
borsh = "=1.8.1"
