[package]
name = "flow_lenia_gpu"
version = "0.1.0"
edition = "2021"
publish = false

[dependencies]
bytemuck = "=1.25.2"
ndarray = "=0.16.1"
image = { version = "=0.24.9", default-features = false, features = ["png"] }
wgpu = "=29.0.4"
pollster = "=0.4.0"
log = "=0.4.35"
egui = { version = "0.34", default-features = false, features = ["default_fonts"] }
egui-wgpu = { version = "0.34", default-features = false }
egui-winit = { version = "0.34", default-features = false }
winit = { version = "0.30", default-features = false, features = ["rwh_06", "x11"] }
futures-channel = "0.3"
web-time = "1"
wasm-bindgen = "0.2"
wasm-bindgen-futures = "0.4"
js-sys = "0.3"
web-sys = { version = "0.3", features = ["Blob", "BlobPropertyBag", "Document", "Element", "HtmlAnchorElement", "HtmlCanvasElement", "HtmlElement", "Node", "Url", "Window"] }
console_log = "1"
console_error_panic_hook = "0.1"
