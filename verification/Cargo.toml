[package]
name = "more_actors"
version = "0.1.0"
edition = "2021"
publish = false

[dependencies]
anyhow = "=1.0.104"
axum = { version = "=0.8.9", features = ["ws"] }
colorous = "=1.0.16"
dioxus = { version = "=0.7.10", features = ["server"] }
dioxus-ssr = "=0.7.10"
futures-channel = "=0.3.34"
futures-util = "=0.3.34"
gloo-timers = { version = "=0.3.0", features = ["futures"] }
qrcode = { version = "=0.14.1", default-features = false, features = ["svg"] }
serde = { version = "=1.0.229", features = ["derive"] }
serde_json = "=1.0.154"
syntect = { version = "=5.3.0", default-features = false, features = ["default-fancy"] }
tokio = { version = "=1.54.1", features = ["rt-multi-thread", "macros", "sync", "time", "net"] }
tokio-util = "=0.7.20"
tracing = "=0.1.44"
wasm-bindgen = "=0.2.130"
web-sys = { version = "=0.3.107", features = ["BinaryType", "CloseEvent", "Document", "Element", "History", "Location", "MessageEvent", "Performance", "WebSocket", "Window"] }
