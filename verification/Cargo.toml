[package]
name = "injective_bank"
version = "0.1.0"
edition = "2021"
publish = false

[dependencies]
cosmwasm-schema = "=1.5.11"
cosmwasm-std = "=1.5.11"
cw2 = "=1.1.2"
cw721-base = { version = "=0.18.0", features = ["library"] }
cw-storage-plus = "=1.2.0"
cw-utils = "=1.0.3"
num-traits = "=0.2.19"
rust_decimal = { version = "=1.35.0", features = ["maths", "maths-nopanic"] }
thiserror = "=1.0.69"
