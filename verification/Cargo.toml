[package]
name = "horaires"
version = "0.1.0"
edition = "2021"
publish = false

[dependencies]
chrono = "=0.4.45"
console_error_panic_hook = "=0.1.7"
gloo = { version = "=0.11.0", default-features = false, features = ["storage"] }
leptos = "=0.8.23"
leptos-leaflet = "=0.10.2"
leptos_router = "=0.8.17"
log = "=0.4.35"
opening-hours = "=2.1.4"
reqwest = { version = "=0.12.28", default-features = false, features = ["json"] }
serde = { version = "=1.0.229", features = ["derive"] }
wasm-logger = "=0.2.0"

[dev-dependencies]
leptos_router = { version = "=0.8.17", features = ["ssr"] }
