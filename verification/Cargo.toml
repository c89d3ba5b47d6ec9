[package]
name = "wasm_luau"
version = "0.1.0"
edition = "2021"
publish = false

[dependencies]
slotmap = "1"
tinyvec = { version = "1", features = ["alloc"] }
wasmparser = "0.107"
