[package]
name = "ledger_eth"
version = "0.1.0"
edition = "2021"
publish = false

[dependencies]
ethers-core = "*"
ledger-transport = "*"
ledger-transport-hid = "*"
