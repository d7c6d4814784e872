[package]
name = "ruffle_seer"
version = "0.1.0"
edition = "2021"
publish = false

[dependencies]
fnv = "1"
gc-arena = "*"
tracing = "0.1"
url = "2"
web-time = "1"
wgpu = { version = "27", default-features = false }
