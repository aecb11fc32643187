[package]
name = "wacli"
version = "0.1.0"
edition = "2021"
publish = false

[dependencies]
anyhow = "=1.0.104"
id-arena = "=2.3.0"
semver = "=1.0.28"
serde = { version = "=1.0.229", features = ["derive"] }
serde_json = "=1.0.151"
toml = "=1.1.7"
wasm-encoder = "=0.261.0"
wasmparser = "=0.261.0"
wat = "=1.261.0"
wit-component = "=0.261.0"
wit-parser = "=0.261.0"
