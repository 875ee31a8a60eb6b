[package]
name = "kithmonite"
version = "0.1.0"
edition = "2021"
publish = false

[dependencies]
rust_decimal = "*"
serde = { version = "*", features = ["derive"] }
csv = "*"
anyhow = "*"
rand = "*"
