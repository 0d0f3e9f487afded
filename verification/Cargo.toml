[package]
name = "dozer_core"
version = "0.1.0"
edition = "2021"
publish = false

[dependencies]
chrono = "0.4"
crossbeam = "0.8"
daggy = "0.8"
kafka = { version = "0.9", default-features = false }
ordered-float = "3"
parking_lot = "0.12"
rust_decimal = "1"
