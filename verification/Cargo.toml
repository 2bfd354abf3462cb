[package]
name = "wordle"
version = "0.1.0"
edition = "2021"
publish = false

[dependencies]
ansi_term = "=0.12.1"
clap = { version = "=4.6.7", features = ["derive"] }
console = "=0.15.11"
rand = "=0.8.8"
serde = { version = "=1.0.229", features = ["derive"] }
serde_json = "=1.0.154"
log = "=0.4.35"
yew = { version = "=0.21.0", features = ["csr"] }
web-sys = { version = "=0.3.107", features = ["HtmlInputElement", "Window", "Document", "Element", "HtmlElement", "Event", "EventTarget", "MouseEvent", "InputEvent"] }
wasm-bindgen = "=0.2.130"
wasm-bindgen-futures = "=0.4.80"
gloo = { version = "=0.11.0", features = ["futures"] }
stylist = "=0.13.0"
