[package]
name = "serp_tokens"
version = "0.1.0"
edition = "2021"
publish = false

[dependencies]
sp-runtime = "=3.0.0"
frame-support = "=3.0.0"
frame-system = "=3.0.0"
sp-std = "=3.0.0"
serp-traits = "=0.5.3"
parity-scale-codec = { version = "=2.3.1", features = ["derive"] }
substrate-bip39 = "=0.4.2"
syn = "=1.0.58"
