[package]
name = "ferro"
version = "0.1.0"
edition = "2021"
publish = false

[dependencies]
base32 = "=0.5.1"
hmac = "=0.12.1"
sha1 = "=0.10.7"
rand = "=0.8.8"
time = "=0.3.55"
jsonwebtoken = "=9.3.1"
serde = { version = "=1.0.229", features = ["derive"] }
serde_json = "=1.0.154"
axum = "=0.8.9"
web-sys = { version = "=0.3.107", features = ["Window", "Storage", "File", "Blob", "FormData", "Request", "RequestInit", "Response", "Headers"] }
wasm-bindgen = "=0.2.130"
wasm-bindgen-futures = "=0.4.80"
gloo-net = { version = "=0.6.0", default-features = false, features = ["http", "json"] }
utoipa = "5"
