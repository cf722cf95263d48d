[package]
name = "randomart"
version = "0.1.0"
edition = "2021"

[dependencies]
clap = { version = "3", features = ["derive"] }
sha3 = "0.10"
