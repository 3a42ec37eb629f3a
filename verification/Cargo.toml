[package]
name = "htlc"
version = "0.1.0"
edition = "2021"
publish = false

[dependencies]
hex = "0.4"
sha3 = "0.10"
sha2 = "0.10"
bech32 = "0.9"
cosmwasm-std = "1.5"
cw-storage-plus = "1.2"
serde = { version = "1", features = ["derive"] }
thiserror = "1"
