[package]
name = "compose_area"
version = "0.1.0"
edition = "2021"
publish = false

[dependencies]
cfg-if = "=0.1.10"
virtual-dom-rs = "=0.6.14"
virtual-node = "=0.2.7"
wasm-bindgen = "=0.2.129"
wee_alloc = "=0.4.5"
web-sys = { version = "=0.3.106", features = ["console", "Document", "Element", "Node", "NodeList", "Range", "Selection", "Window"] }
