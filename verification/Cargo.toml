[package]
name = "langton_ant"
version = "0.1.0"
edition = "2021"
publish = false

[dependencies]
serde = { version = "=1.0.229", features = ["derive"] }
toml = "=0.8.23"
log = "0.4"
wasm-bindgen = "0.2"
wasm-bindgen-futures = "0.4"
