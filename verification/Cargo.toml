[package]
name = "zksim"
version = "0.1.0"
edition = "2021"
publish = false

[dependencies]
ark-bn254 = "=0.5.0"
ark-ff = "=0.5.0"
ark-std = "=0.5.0"
ark-relations = "=0.5.1"
ark-r1cs-std = "=0.5.0"
ark-crypto-primitives = { version = "=0.5.0", features = ["sponge", "r1cs"] }
ethers-core = "=2.0.14"
