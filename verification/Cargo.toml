[package]
name = "byte_unit"
version = "0.1.0"
edition = "2021"
publish = false

[dependencies]
rust_decimal = { version = "1", default-features = false }
utf8-width = "0.1"
serde = { version = "1", default-features = false, features = ["alloc"] }
schemars = { version = "1", default-features = false }
rocket = { version = "0.5", default-features = false }
