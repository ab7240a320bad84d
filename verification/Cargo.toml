[package]
name = "gemstone"
version = "0.1.0"
edition = "2021"

[dependencies]
colored = "2"
