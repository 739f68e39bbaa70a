[package]
name = "mandelzoom"
version = "0.1.0"
edition = "2021"
publish = false

[dependencies]
wasm-bindgen = "*"
wee_alloc = "*"
