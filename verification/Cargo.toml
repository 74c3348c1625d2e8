[package]
name = "chip8"
version = "0.1.0"
edition = "2021"
publish = false

[dependencies]
arrayvec = "*"
fixedbitset = "*"
rand = "*"
wasm-bindgen = "*"
js-sys = "*"
wasm-bindgen-futures = "*"
console_error_panic_hook = "*"
gloo = "*"
web-sys = { version = "*", features = ["Window", "Document", "Element", "HtmlCanvasElement", "HtmlElement", "HtmlInputElement", "HtmlSelectElement", "KeyboardEvent", "Performance", "Response", "CanvasRenderingContext2d", "EventTarget", "console"] }
