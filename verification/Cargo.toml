[package]
name = "nft_raffle"
version = "0.1.0"
edition = "2021"
publish = false

[dependencies]
anchor-lang = "*"
rand = "0.8"
