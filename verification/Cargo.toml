[package]
name = "cw721_ledger"
version = "0.1.0"
edition = "2021"
publish = false

[dependencies]
url = "*"
cosmwasm-std = "*"
cw-utils = "*"
cw-ownable = "*"
serde = { version = "*", features = ["derive"] }
