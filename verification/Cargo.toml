[package]
name = "path_facts"
version = "0.1.0"
edition = "2021"
publish = false

[dependencies]
faccess = "0.2"

[dev-dependencies]
tempfile = "3"
