[package]
name = "relay_server"
version = "0.1.0"
edition = "2021"
publish = false

[dependencies]
ws = "0.9"
