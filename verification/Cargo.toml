[package]
name = "collaborate"
version = "0.1.0"
edition = "2021"
publish = false

[dependencies]
spacetimedb-lib = "=2.4.1"
spacetimedb-client-api-messages = "=2.4.1"
brotli = "=9.1.1"
flate2 = "=1.1.10"
bytes = "=1.12.1"
serde = { version = "=1.0.229", features = ["derive"] }
serde_json = "=1.0.154"
log = "=0.4.35"
leptos = { version = "0.7", features = ["csr"] }
web-sys = { version = "0.3", features = ["HtmlCanvasElement", "CanvasRenderingContext2d", "MouseEvent", "KeyboardEvent", "WheelEvent", "Window", "Document", "DomRect", "HtmlAnchorElement", "Blob", "BlobPropertyBag", "Url", "HtmlElement", "Element", "Node", "ServiceWorkerGlobalScope", "Cache", "CacheStorage", "Request", "Response", "FetchEvent", "ExtendableEvent"] }
wasm-bindgen = "0.2"
js-sys = "0.3"
wasm-bindgen-futures = "0.4"
futures = "0.3"
futures-channel = "0.3"
tokio-tungstenite-wasm = "*"
console_error_panic_hook = "0.1"
wasm-logger = "0.2"
