[package]
name = "astrozap"
version = "0.1.0"
edition = "2021"
publish = false

[dependencies]
num-bigint = "0.4"
cosmwasm-std = "1"
cw20 = "1"
cw-storage-plus = "1"
cw-asset = "3"
astroport = "2"
serde = { version = "1", features = ["derive"] }
schemars = "0.8"
