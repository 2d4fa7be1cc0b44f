[package]
name = "nu_tongues"
version = "0.1.0"
edition = "2021"
publish = false

[dependencies]
toml = "=0.8.23"
nu-ansi-term = "=0.50.3"
nu-plugin = "=0.114.1"
nu-protocol = "=0.114.1"
