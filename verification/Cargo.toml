[package]
name = "congruity"
version = "0.1.0"
edition = "2021"
publish = false

[dependencies]
serde_json = "1"
base58check = "0.1"
hex = "0.4"
