[package]
name = "scroll_storyteller"
version = "0.1.0"
edition = "2021"
publish = false

[dependencies]
anyhow = "*"
chrono = { version = "*", default-features = false, features = ["std", "serde"] }
gloo-net = { version = "*", default-features = false, features = ["http"] }
js-sys = "*"
serde = { version = "*", features = ["derive"] }
serde-lite = "*"
serde_json = "*"
uuid = { version = "*", features = ["serde"] }
wasm-bindgen = "*"
wasm-bindgen-futures = "*"
web-sys = { version = "*", features = ["Window", "Document", "HtmlDocument", "HtmlElement", "Element", "Node", "Event", "EventTarget", "Performance", "ScrollBehavior", "ScrollToOptions", "IntersectionObserver", "IntersectionObserverEntry", "IntersectionObserverInit", "Location", "DomRect"] }
