[package]
name = "leptos-animated-for"
version = "0.1.0"
edition = "2021"
publish = false

[dependencies]
leptos = { version = "0.6", features = ["csr"] }
web-sys = { version = "0.3", features = ["AnimationEvent", "CssStyleDeclaration", "Document", "DomRect", "DomTokenList", "Element", "HtmlElement", "Node", "TransitionEvent", "Window"] }
wasm-bindgen = "0.2"
futures = "0.3"
