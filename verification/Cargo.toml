[package]
name = "usbip"
version = "0.1.0"
edition = "2021"
publish = false

[dependencies]
log = "0.4"
nusb = "0.2"
rusb = { version = "0.9", features = ["vendored"] }
tokio = { version = "1", features = ["net", "rt-multi-thread", "io-util", "sync"] }
