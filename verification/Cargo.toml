[package]
name = "hash_cracker"
version = "0.1.0"
edition = "2021"
publish = false

[dependencies]
hex = "0.4"
md-5 = "0.10"
ron = "0.8"
serde = { version = "1", features = ["derive"] }
sha1 = "0.10"
