[package]
name = "payment_orders"
version = "0.1.0"
edition = "2021"
publish = false

[dependencies]
sha2 = "0.10"
crc32fast = "1"
hex = "0.4"
candid = "*"
ic-ledger-types = "*"
icrc-ledger-types = "*"
ic-cdk = "*"
ic-stable-structures = "*"
serde = { version = "1", features = ["derive"] }
