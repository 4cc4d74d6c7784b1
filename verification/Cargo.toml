[package]
name = "axdl"
version = "0.1.0"
edition = "2021"
publish = false

[dependencies]
anyhow = "1"
async_zip = { version = "0.0.17", features = ["deflate"] }
clap = { version = "4", features = ["derive"] }
futures-io = "0.3"
indicatif = "0.17"
js-sys = "0.3"
pin-project = "1"
serde = { version = "1", features = ["derive"] }
serde-xml-rs = "0.6"
thiserror = "2"
tracing = "0.1"
tracing-subscriber = { version = "0.3", features = ["env-filter"] }
wasm-bindgen = "0.2"
web-sys = { version = "0.3", features = ["Blob", "File", "FileReader", "FileReaderSync"] }
zip = { version = "2", default-features = false, features = ["deflate"] }
