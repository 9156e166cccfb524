[package]
name = "native_renderer"
version = "0.1.0"
edition = "2021"
publish = false

[dependencies]
napi = { version = "2", default-features = false, features = ["napi4", "tokio_rt"] }
napi-derive = "2"
once_cell = "1"
pdfium-render = "0.8"
image = { version = "0.25", default-features = false, features = ["png", "jpeg"] }
webp = { version = "0.3", default-features = false }
tokio = { version = "1", features = ["rt"] }
thiserror = "1"
