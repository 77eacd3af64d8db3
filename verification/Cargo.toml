[package]
name = "wasm_compiler"
version = "0.1.0"
edition = "2021"

[dependencies]
bwasm = "=0.1.1"
parity-wasm = "=0.41.0"
