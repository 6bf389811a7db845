[package]
name = "tzauth"
version = "0.1.0"
edition = "2021"
publish = false

[dependencies]
anyhow = "1"
hex = "0.4"
ssi = "0.4"

[dev-dependencies]
bs58 = { version = "0.4", features = ["check"] }
nom = "7"
