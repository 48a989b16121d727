[package]
name = "portfolio"
version = "0.1.0"
edition = "2021"
publish = false

[dependencies]
rand = "0.8"
web-sys = { version = "0.3", features = ["HtmlAudioElement", "HtmlMediaElement"] }
serde = { version = "1", features = ["derive"] }
serde_json = "1"
reqwest = { version = "*", default-features = false }
gloo-timers = { version = "*", features = ["futures"] }
log = "*"
wasm-logger = "*"
dioxus = { version = "*", features = ["web"] }
dioxus-web = "*"
dioxus-free-icons = { version = "*", features = ["bootstrap"] }
