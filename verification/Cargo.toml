[package]
name = "nostreye"
version = "0.1.0"
edition = "2021"
publish = false

[dependencies]
anyhow = "=1.0.104"
base64 = "=0.22.1"
device-signer = "=0.1.1"
futures-util = "=0.3.34"
hex = "=0.4.3"
image = { version = "=0.25.10", default-features = false, features = ["jpeg"] }
libcamera = "=0.7.0"
nostr = { version = "=0.45.6", default-features = false, features = ["std"] }
reqwest = { version = "=0.12.28", default-features = false, features = ["json", "rustls-tls"] }
secp256k1 = "=0.30.0"
serde_json = "=1.0.154"
sha2 = "=0.10.9"
tokio = { version = "=1.54.1", features = ["full"] }
tokio-tungstenite = { version = "=0.30.0", features = ["rustls-tls-webpki-roots"] }
tracing = "=0.1.44"
tracing-subscriber = { version = "=0.3.23", features = ["env-filter"] }
