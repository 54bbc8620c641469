[package]
name = "briscola"
version = "0.1.0"
edition = "2021"
publish = false

[dependencies]
rand = "=0.8.8"
ansi_term = "=0.12.1"
wasm-bindgen = "0.2"
web-sys = { version = "0.3", features = ["Window", "Document", "Element", "Event", "EventTarget", "HtmlElement", "HtmlHeadElement", "PointerEvent", "MouseEvent", "KeyboardEvent", "DomRect", "VisualViewport", "NodeList", "Node", "DomTokenList"] }
