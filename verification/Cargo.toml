[package]
name = "lenso_runtime"
version = "0.1.0"
edition = "2021"
publish = false

[dependencies]
fs2 = "=0.4.3"
futures = "=0.3.34"
hex = "=0.4.3"
inventory = "=0.3.25"
lenso-app-plan = "=0.4.7"
lenso-kernel = "=0.3.13"
lenso-plugin-authoring = "=0.2.0"
libloading = "=0.8.9"
proc-macro-crate = "*"
proc-macro2 = "=1.0.107"
quote = "=1.0.47"
semver = "=1.0.28"
serde = { version = "=1.0.229", features = ["derive"] }
serde_json = { version = "=1.0.154", features = ["preserve_order"] }
sha2 = "=0.10.9"
syn = { version = "=2.0.119", features = ["full", "extra-traits"] }
tempfile = "=3.27.0"
tokio = { version = "=1.54.1", features = ["rt", "sync", "time", "macros"] }
toml = "=1.1.8"
wasmparser = "=0.263.0"
wit-component = "=0.263.0"

[dev-dependencies]
wasm-encoder = "=0.263.0"
