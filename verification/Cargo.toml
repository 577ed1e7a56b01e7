[package]
name = "simplicity_web"
version = "0.1.0"
edition = "2021"
publish = false

[dependencies]
simplicityhl = "=0.4.1"
serde_json = "=1.0.151"
serde = { version = "=1.0.229", features = ["derive"] }
leptos = { version = "=0.8.22", features = ["csr"] }
wasm-bindgen = "=0.2.129"
web-sys = { version = "=0.3.106", features = ["Window", "HtmlTextAreaElement", "DragEvent", "DataTransfer", "FileList", "File", "FileReader", "ProgressEvent", "Event", "EventTarget"] }
console_error_panic_hook = "=0.1.7"
