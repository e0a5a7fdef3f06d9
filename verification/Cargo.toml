[package]
name = "attention_challenge"
version = "0.1.0"
edition = "2021"
publish = false

[dependencies]
rand = "0.8"
serde = { version = "1", features = ["derive"] }
serde_json = "1"
js-sys = "0.3"
wasm-bindgen = "0.2"
web-sys = { version = "0.3", features = ["Window", "Document", "Storage", "Navigator", "Element", "HtmlElement", "HtmlDivElement", "HtmlInputElement", "HtmlMediaElement", "DomRect", "Event", "EventTarget", "InputEvent"] }
gloo-events = "0.2"
gloo-timers = "0.3"
yew = { version = "0.21", features = ["csr"] }
yew-router = "0.18"
plotters = { version = "0.3", default-features = false, features = ["svg_backend", "line_series"] }
