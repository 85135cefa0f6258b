[package]
name = "transfer_hook"
version = "0.1.0"
edition = "2021"
publish = false

[dependencies]
anchor-lang = { version = "=0.31.2", features = ["init-if-needed", "interface-instructions"] }
anchor-spl = "=0.31.2"
spl-tlv-account-resolution = "0.9.0"
spl-transfer-hook-interface = "0.9.0"
