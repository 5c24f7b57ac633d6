[package]
name = "variant_bridge"
version = "0.1.0"
edition = "2021"
publish = false

[dependencies]
noodles = { version = "=0.118.0", features = ["bgzf", "core", "vcf"] }
noodles-util = { version = "=0.87.0", features = ["variant"] }
rust-htslib = { version = "=1.0.2", default-features = false }
v8 = "=152.2.0"
