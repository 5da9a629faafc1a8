[package]
name = "gander"
version = "0.1.0"
edition = "2021"
publish = false

[dependencies]
agent-client-protocol = "=1.0.1"
anyhow = "1"
base64 = "0.22"
clap = { version = "4", features = ["derive"] }
console_error_panic_hook = "0.1"
dirs = "6"
js-sys = "0.3"
leptos = { version = "0.8", features = ["csr"] }
nix = { version = "0.30", features = ["signal"] }
open = "5"
pulldown-cmark = "0.13"
serde = { version = "1", features = ["derive"] }
serde_json = { version = "1", features = ["preserve_order"] }
thiserror = "2"
tokio = { version = "1", features = ["full"] }
tokio-stream = { version = "0.1", features = ["sync"] }
tokio-util = { version = "0.7", features = ["compat"] }
toml = "0.9"
tracing = "0.1"
tracing-subscriber = { version = "0.3", features = ["env-filter"] }
wasm-bindgen = "0.2"
web-sys = { version = "0.3", features = ["Event", "HtmlDivElement", "HtmlTextAreaElement", "KeyboardEvent", "ResizeObserver", "Window", "console"] }

[dev-dependencies]
tempfile = "3"
