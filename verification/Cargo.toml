[package]
name = "simd_euclidean"
version = "0.2.0"
edition = "2021"

[dev-dependencies]
rand = "0.7"
