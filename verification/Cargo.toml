[package]
name = "esper"
version = "0.1.0"
edition = "2021"
publish = false

[dependencies]
chic = "=1.2.2"
