[package]
name = "iiot-fusion"
version = "0.1.0"
edition = "2021"
publish = false

[dependencies]
prost = "=0.14.4"
wasmtime = "=47.0.4"
wasmtime-wasi = "=47.0.4"
wit-bindgen = "=0.63.0"
