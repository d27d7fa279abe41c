[package]
name = "png_generator"
version = "0.1.0"
edition = "2021"
publish = false

[dependencies]
serde_json = "*"
image = { version = "0.24", default-features = false, features = ["png"] }
wasm-bindgen = "*"
console_error_panic_hook = "*"
