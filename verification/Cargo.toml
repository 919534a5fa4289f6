[package]
name = "penumbra"
version = "0.1.0"
edition = "2021"
publish = false

[dependencies]
arc-swap = "=1.9.3"
async-stream = "=0.3.6"
axum = "=0.8.9"
base64 = "=0.22.1"
chrono = "=0.4.45"
futures = "=0.3.34"
mime_guess = "=2.0.5"
p256 = { version = "=0.13.2", features = ["ecdsa", "pem", "pkcs8"] }
prost = "=0.13.5"
pulldown-cmark = { version = "=0.13.6", default-features = false }
regex = "=1.13.1"
reqwest = { version = "=0.13.5", default-features = false, features = ["form", "json", "rustls"] }
rig-core = { version = "=0.35.0", default-features = false }
schemars = "=0.8.22"
serde = { version = "=1.0.229", features = ["derive"] }
serde_json = "=1.0.154"
tokio = { version = "=1.54.1", features = ["full"] }
tokio-stream = "=0.1.19"
toml = "=0.8.23"
toml_edit = "=0.22.27"
tonic = { version = "=0.12.3", default-features = false }
tracing = "=0.1.44"

[dev-dependencies]
rand_core = { version = "=0.6.4", features = ["getrandom"] }
