[package]
name = "felt_convert"
version = "0.1.0"
edition = "2021"
publish = false

[dependencies]
hex = "0.4"
starknet-core = "*"
clap = { version = "4", features = ["derive"] }
