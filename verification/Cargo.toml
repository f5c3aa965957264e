[package]
name = "scrypt_hex"
version = "0.1.0"
edition = "2021"
publish = false

[dependencies]
scrypt = { version = "*", default-features = false }
wasm-bindgen = "*"
