[package]
name = "rse"
version = "0.1.0"
edition = "2021"
publish = false

[dependencies]
reed-solomon-erasure = "*"
wasm-bindgen = "*"
js-sys = "*"
wee_alloc = "*"
