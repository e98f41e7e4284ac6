[package]
name = "streams"
version = "0.1.0"
edition = "2021"
publish = false

[dependencies]
iota-crypto = { version = "=0.23.2", default-features = false, features = ["ed25519", "x25519", "sha"] }
keccak = "=0.1.6"
hashbrown = "=0.17.1"
rand = "=0.8.8"
anyhow = "=1.0.104"
async-trait = "=0.1.92"
futures = "=0.3.34"
