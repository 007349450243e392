[package]
name = "wasm-bindgen-derive"
version = "0.3.0"
edition = "2021"
publish = false

[dependencies]
js-sys = "0.3"
proc-macro2 = "1"
quote = "1"
syn = "1"
wasm-bindgen = "0.2"
