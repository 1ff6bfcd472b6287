[package]
name = "jsnabber-core"
version = "0.1.0"
edition = "2021"
publish = false

[dependencies]
rquickjs = { version = "*", features = ["loader"] }
regex = "1"
base64 = "0.22"
rand = "0.8"
rand_pcg = "0.3"
serde = { version = "1", features = ["derive"] }
thiserror = "1"
anyhow = "1"
worker = "*"
quickjs-wasm-rs = "*"
