[package]
name = "forja_wasm_gui"
version = "0.1.0"
edition = "2021"
publish = false

[dependencies]
serde_json = "=1.0.154"
wasm-bindgen = "=0.2.130"
web-sys = { version = "=0.3.107", features = ["CanvasRenderingContext2d", "Document", "Element", "EventTarget", "HtmlCanvasElement", "MouseEvent", "Node", "Window", "console"] }
