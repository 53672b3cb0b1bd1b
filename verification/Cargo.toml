[package]
name = "mmo_auth"
version = "0.1.0"
edition = "2021"
publish = false

[dependencies]
openssl = "0.10"

[dev-dependencies]
hex = "0.4"
