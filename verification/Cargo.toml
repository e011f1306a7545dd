[package]
name = "arpabet"
version = "2.0.0"
edition = "2021"
publish = false

[dependencies]
phf = { version = "=0.11.3", default-features = false }

[dev-dependencies]
regex = "1"
