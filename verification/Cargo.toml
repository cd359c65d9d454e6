[package]
name = "zbox_bridge"
version = "0.1.0"
edition = "2021"
publish = false

[dependencies]
zbox = "*"
wasm-bindgen = "*"
js-sys = "*"
web-sys = { version = "*", features = ["WorkerGlobalScope", "Crypto"] }
log = "*"
serde = "*"
serde_derive = "*"
