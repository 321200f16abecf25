[package]
name = "fee_router"
version = "0.1.0"
edition = "2021"
publish = false

[dependencies]
cosmwasm-std = "=1.5.11"
astroport = "=5.9.0"
cw20 = "=1.1.2"
cw2 = "=1.1.2"
cw-storage-plus = "=1.2.0"
schemars = "=0.8.22"
serde = { version = "=1.0.229", features = ["derive"] }
