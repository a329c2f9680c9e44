[package]
name = "rust_audit"
version = "0.1.0"
edition = "2021"
publish = false

[dependencies]
scraper = "*"
wasm-bindgen = "0.2"
