[package]
name = "twapi"
version = "0.1.0"
edition = "2021"
publish = false

[dependencies]
async-trait = "=0.1.92"
base64 = "=0.13.1"
chrono = "=0.4.45"
rand = "=0.7.3"
rust-crypto = "=0.2.36"
serde_json = "=1.0.154"
tokio = { version = "=1.54.1", features = ["time"] }
twapi-reqwest = "=0.5.0"
url = "=2.5.8"

[dev-dependencies]
twapi-oauth = "=0.1.4"
