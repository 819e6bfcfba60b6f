[package]
name = "aquatic"
version = "0.1.0"
edition = "2021"
publish = false

[dependencies]
ahash = "=0.8.12"
anyhow = "=1.0.104"
arc-swap = "=1.9.3"
arrayvec = "=0.7.8"
blake3 = "=1.8.7"
constant_time_eq = "=0.3.1"
crossbeam-channel = "=0.5.17"
getrandom = "=0.2.17"
hashbrown = "=0.14.5"
hdrhistogram = "=7.6.0"
hex = "=0.4.3"
indexmap = "=2.14.2"
log = "=0.4.35"
parking_lot = "=0.12.5"
rand = { version = "=0.8.8", features = ["small_rng"] }
regex = "=1.13.1"
serde = { version = "=1.0.229", features = ["derive"] }
slab = "=0.4.12"
toml = "=0.8.23"
