[package]
name = "quantum_bridge"
version = "0.1.0"
edition = "2021"
publish = false

[dependencies]
blake3 = { version = "=1.8.7", features = ["pure"] }
parity-scale-codec = { version = "=3.7.5", features = ["derive"] }
num-complex = "=0.4.6"
sp-crypto-hashing = "0.1"
