[package]
name = "bitcraft_server"
version = "0.1.0"
edition = "2021"
publish = false

[dependencies]
spacetimedb = "1.6"
