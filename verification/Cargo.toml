[package]
name = "fission_maps"
version = "0.1.0"
edition = "2021"
publish = false

[dependencies]
bincode = "1"
serde = { version = "1", features = ["derive"] }
fission-core = "0.9"
fission-ir = "0.9"
fission-render = "0.9"
fission-shell = "0.9"
lazy_static = "1"
raw-window-handle = "0.6"
objc = "0.2"
cocoa = "*"
core-graphics = "*"
