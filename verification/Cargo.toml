[package]
name = "nota_core"
version = "0.1.0"
edition = "2021"
publish = false

[dependencies]
chrono = { version = "=0.4.45", features = ["serde"] }
uuid = { version = "=1.29.1", features = ["v4", "serde", "js"] }
serde = { version = "=1.0.229", features = ["derive"] }
serde_json = "=1.0.154"
pulldown-cmark = { version = "=0.13.6", default-features = false, features = ["html"] }
gloo-storage = "=0.4.0"
leptos = { version = "=0.8.23", features = ["csr"] }
wasm-bindgen = "=0.2.130"
web-sys = { version = "=0.3.107", features = ["Window", "Document", "Element", "HtmlElement", "HtmlAnchorElement", "HtmlInputElement", "File", "FileList", "FileReader", "Blob", "Storage", "MediaQueryList", "Event", "EventTarget", "KeyboardEvent", "console"] }
