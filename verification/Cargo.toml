[package]
name = "rustledger"
version = "0.1.0"
edition = "2021"
publish = false

[dependencies]
rust_decimal = "1"
chrono = "0.4"
regex = "1"
sha2 = "0.10"
serde = { version = "1", features = ["derive"] }
wasm-bindgen = "0.2"
