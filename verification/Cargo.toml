[package]
name = "nft_bridge"
version = "0.1.0"
edition = "2021"
publish = false

[dependencies]
ontio-std = "*"
