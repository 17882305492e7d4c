[package]
name = "portfolio_pages"
version = "0.1.0"
edition = "2021"
publish = false

[dependencies]
chrono = { version = "=0.4.45", default-features = false, features = ["std"] }
uuid = { version = "=1.29.1", default-features = false, features = ["std"] }
wasm-bindgen = "=0.2.130"
js-sys = "=0.3.107"
web-sys = { version = "=0.3.107", features = ["Window", "Document", "Element", "HtmlElement", "HtmlAnchorElement", "HtmlInputElement", "Blob", "Url", "FileReader", "FileList", "File", "Event", "EventTarget", "MouseEvent"] }
gloo-timers = "=0.3.0"
