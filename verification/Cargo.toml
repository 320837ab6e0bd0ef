[package]
name = "plexy_glass"
version = "0.1.0"
edition = "2021"
publish = false

[dependencies]
base64 = "0.22"
bytes = "1"
smol_str = "0.3"
tokio = { version = "1", features = ["sync", "time", "rt"] }
tracing = "0.1"
unicode-segmentation = "1"
unicode-width = "0.2"
vte = "0.15"
