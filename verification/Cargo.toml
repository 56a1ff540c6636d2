[package]
name = "redemption_batch"
version = "0.1.0"
edition = "2021"
publish = false

[dependencies]
challenge-bypass-ristretto = { version = "=2.1.0", features = ["base64"] }
serde_json = "=1.0.151"
hmac = "=0.12.1"
sha2 = "=0.10.9"
csv = "=1.4.0"
threadpool = "=1.8.1"
structopt = "=0.3.26"

[dev-dependencies]
rand = "=0.8.8"
