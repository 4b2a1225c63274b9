[package]
name = "rebuild"
version = "0.1.0"
edition = "2021"
publish = false

[dependencies]
blake3 = "1"
hex = "0.4"
jwalk = "0.8"
memmap2 = "0.9"
rayon = "1"
