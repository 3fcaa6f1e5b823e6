[package]
name = "urls_core"
version = "0.1.0"
edition = "2021"
publish = false

[dependencies]
nanoid = "*"
hmac = "*"
sha2 = "*"
base64 = "*"
validator = "*"
pulldown-cmark = "*"
