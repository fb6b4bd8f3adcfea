[package]
name = "elements-miniscript"
version = "0.1.0"
edition = "2021"
publish = false

[dependencies]
bitcoin = "0.28"
elements = { version = "0.19", default-features = false }
