[package]
name = "cubes"
version = "0.1.0"
edition = "2021"
publish = false

[dependencies]
geo = "*"
wasm-bindgen = "0.2"
web-sys = { version = "0.3", features = ["CanvasRenderingContext2d", "CssStyleDeclaration", "Document", "Element", "EventTarget", "HtmlCanvasElement", "HtmlElement", "Location", "MouseEvent", "Node", "TextMetrics", "Touch", "TouchEvent", "TouchList", "Window"] }
axum = "0.7"
tokio = { version = "1", features = ["macros", "net", "rt-multi-thread"] }
tower-http = { version = "0.5", features = ["fs"] }
