[package]
name = "wonk_relay"
version = "0.1.0"
edition = "2021"
publish = false

[dependencies]
crc32fast = "1"
hmac = "0.12"
sha1 = "0.10"
md5 = "0.7"
eyre = "0.6"
tokio = { version = "1", features = ["net", "rt", "macros"] }
