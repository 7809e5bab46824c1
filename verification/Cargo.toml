[package]
name = "chimera_ruffle"
version = "0.1.0"
edition = "2021"
publish = false

[dependencies]
async-channel = "*"
chrono = "*"
encoding_rs = "*"
indexmap = "*"
percent-encoding = "*"
serde_json = "*"
tracing = "*"
url = "*"
wgpu = { version = "*", default-features = false, features = ["gles", "wgsl"] }
