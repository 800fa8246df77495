[package]
name = "brain_render"
version = "0.1.0"
edition = "2021"
publish = false

[dependencies]
ndarray = "=0.17.2"
serde = { version = "=1.0.229", features = ["derive"] }
bytemuck = { version = "=1.25.2", features = ["derive"] }
js-sys = "=0.3.106"
wasm-bindgen = "=0.2.129"
nifti = { version = "=0.18.0", features = ["ndarray_volumes"] }
web-sys = { version = "*", features = ["Blob", "File"] }
wasm-bindgen-futures = "*"
serde-wasm-bindgen = "*"
