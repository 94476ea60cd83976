[package]
name = "rbolt"
version = "0.1.0"
edition = "2021"
publish = false

[dev-dependencies]
quickcheck = "1"
