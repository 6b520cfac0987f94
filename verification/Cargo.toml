[package]
name = "variant-set"
version = "0.1.0"
edition = "2021"

[dependencies]
nohash-hasher = "0.2"
proc-macro2 = "1"
quote = "1"
syn = "2"
