[package]
name = "betty"
version = "0.1.0"
edition = "2021"
publish = false

[dependencies]
rust_decimal = { version = "1", features = ["maths"] }
chrono = "0.4"
csv = "1"
serde = { version = "1", features = ["derive"] }
iso_currency = "0.4"
term-table = "1"
termion = "1"
