[package]
name = "smart_servo"
version = "0.1.0"
edition = "2021"
publish = false

[dependencies]
serialport = { version = "4", default-features = false }
thiserror = "2"
clap = { version = "4", features = ["derive"] }
ctrlc = "3"
wasm-bindgen = "0.2"
js-sys = "0.3"
pyo3 = "*"
