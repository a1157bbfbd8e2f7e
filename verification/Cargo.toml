[package]
name = "vkw"
version = "0.1.0"
edition = "2021"
publish = false

[dependencies]
ash = "0.37"
anyhow = "1"
log = "0.4"
