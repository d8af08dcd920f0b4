[package]
name = "read_strategy"
version = "0.1.0"
edition = "2021"
publish = false

[dependencies]
arrow = { version = "*", default-features = false }
chrono = { version = "*", default-features = false, features = ["std"] }
odbc-api = "*"
thiserror = "*"
