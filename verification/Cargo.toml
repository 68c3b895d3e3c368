[package]
name = "eth_phy"
version = "0.2.0"
edition = "2021"
publish = false

[dependencies]
embedded-hal = "1.0"
