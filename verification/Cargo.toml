[package]
name = "phase2"
version = "0.1.0"
edition = "2021"
publish = false

[dependencies]
snarkvm-algorithms = { version = "=0.8.0", default-features = false, features = ["full"] }
snarkvm-curves = { version = "=0.8.0", default-features = false }
snarkvm-fields = { version = "=0.8.0", default-features = false }
snarkvm-r1cs = "=0.8.0"
snarkvm-utilities = "=0.8.0"
blake2 = "=0.9.2"
hex = "=0.4.3"
rand = "=0.8.8"
