[package]
name = "tripcode"
version = "0.1.0"
edition = "2021"
publish = false

[dependencies]
rust-crypto = "0.2"
sha1 = "0.10"
getopts = "0.2"
