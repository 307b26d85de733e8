[package]
name = "easy_imgui_core"
version = "0.1.0"
edition = "2021"
publish = false

[dependencies]
glob = "0.3"
time = "0.3"
zip = { version = "*", default-features = false }
