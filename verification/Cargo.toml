[package]
name = "sqlite3_hyperminhash"
version = "0.1.0"
edition = "2021"
publish = false

[dependencies]
hyperminhash = "*"

[dev-dependencies]
rand = "0.8"
