[package]
name = "liquid_staking_mock"
version = "0.1.0"
edition = "2021"
publish = false

[dependencies]
sp-arithmetic = "*"
parity-scale-codec = "*"
sp-core-hashing = "*"
