[package]
name = "gettype"
version = "0.1.1"
edition = "2021"
publish = false

[dependencies]
serde = { version = "=1.0.229", features = ["derive"] }
serde_json = "=1.0.154"
cpal = "=0.18.2"
hound = "=3.5.1"
reqwest = { version = "=0.12.28", features = ["json", "multipart"] }
tokio = { version = "=1.54.1", features = ["time", "sync"] }
arboard = "=3.7.0"
enigo = "=0.6.1"
keyring = "=3.6.3"
objc2 = "=0.6.5"
objc2-app-kit = "=0.3.2"
objc2-av-foundation = "=0.3.2"
block2 = "=0.6.2"
