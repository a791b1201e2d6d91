[package]
name = "fetcher"
version = "0.1.0"
edition = "2021"
publish = false

[dependencies]
http = "1"
url = "2"
reqwest = { version = "0.12", default-features = false, features = ["rustls-tls"] }
serde = { version = "1", features = ["derive"] }
serde_bytes = "0.11"
serde-wasm-bindgen = "0.6"
wasm-bindgen = "0.2"
wasm-bindgen-futures = "0.4"
js-sys = "0.3"
thiserror = "1"
futures = "0.3"
convert_case = "0.6"
syn = { version = "2", features = ["full"] }
quote = "1"
proc-macro2 = "1"
