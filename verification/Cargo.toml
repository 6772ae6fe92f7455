[package]
name = "octo_ledger"
version = "0.1.0"
edition = "2021"
publish = false

[dependencies]
clap = { version = "4", features = ["derive"] }
csv = "1"
redb = "2"
rust_decimal = { version = "1", features = ["serde"] }
serde = { version = "1", features = ["derive"] }
tempfile = "3"
thiserror = "2"
