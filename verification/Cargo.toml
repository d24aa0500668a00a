[package]
name = "tokio_ssdp"
version = "0.1.0"
edition = "2021"
publish = false

[dependencies]
httpdate = "1"
rand = "0.8"
log = "0.4"
socket2 = "0.5"
tokio = { version = "1", features = ["net", "rt", "rt-multi-thread", "time", "sync", "macros"] }

[dev-dependencies]
httparse = "1"
