[package]
name = "yo-gurt"
version = "0.1.0"
edition = "2021"
publish = false

[dependencies]
embedded-io-async = "0.6"
