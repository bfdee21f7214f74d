[package]
name = "power_consistent_hash"
version = "0.1.0"
edition = "2021"
publish = false

[dependencies]
seahash = "*"
