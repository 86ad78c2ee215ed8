[package]
name = "block_validator"
version = "0.1.0"
edition = "2021"
publish = false

[dependencies]
hex = "=0.4.3"
log = "0.4"
uluru = "=0.4.0"
