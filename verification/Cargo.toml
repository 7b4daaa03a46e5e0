[package]
name = "pallet-voting"
version = "0.1.0"
edition = "2021"
publish = false

[dependencies]
frame-support = { version = "*", default-features = false }
frame-system = { version = "*", default-features = false }
pallet-identity = { version = "*", default-features = false }
scale-info = { version = "*", default-features = false, features = ["derive"] }
parity-scale-codec = { version = "*", default-features = false, features = ["derive"] }
sp-std = { version = "*", default-features = false }
