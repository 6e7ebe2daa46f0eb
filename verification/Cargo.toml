[package]
name = "vynkor-sdk"
version = "0.1.0"
edition = "2021"
publish = false

[dependencies]
crc32fast = "=1.5.4"
futures-util = "=0.3.34"
hkdf = "=0.12.4"
hmac = "=0.12.1"
prost = "=0.13.5"
serde_json = "=1.0.154"
sha2 = "=0.10.9"
tokio = { version = "=1.54.1", features = ["net", "rt-multi-thread", "time", "macros", "sync", "io-util"] }
tokio-tungstenite = "=0.24.0"
vynkor-wire = "=0.0.4"
