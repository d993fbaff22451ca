[package]
name = "std_mangle_rs"
version = "0.1.0"
edition = "2021"
publish = false

[dependencies]
unic-idna-punycode = "*"
