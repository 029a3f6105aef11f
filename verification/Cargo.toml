[package]
name = "bridge_relay"
version = "0.1.0"
edition = "2021"
publish = false

[dependencies]
anyhow = "=1.0.104"
parity-scale-codec = "=3.7.5"
sp-core = "=43.0.0"
sp-crypto-hashing = "=0.1.0"

[dev-dependencies]
sp-arithmetic = "=28.0.1"
