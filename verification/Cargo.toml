[package]
name = "bradis_bridge"
version = "0.1.0"
edition = "2021"
publish = false

[dependencies]
bradis = "=0.1.0"
respite = "=0.4.0"
tokio = { version = "=1.54.1", features = ["io-util", "rt", "time"] }
futures = "=0.3.34"
wasm-bindgen = "=0.2.129"
console_error_panic_hook = "=0.1.7"
