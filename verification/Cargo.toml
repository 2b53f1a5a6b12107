[package]
name = "sic_machine"
version = "0.1.0"
edition = "2021"

[dependencies]
cli-table = { version = "0.4", default-features = false }
