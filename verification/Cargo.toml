[package]
name = "yaserde"
version = "0.1.0"
edition = "2021"
publish = false

[dependencies]
xml-rs = "=0.8.4"
heck = "=0.3.3"
syn = { version = "=2.0.119", features = ["full", "extra-traits"] }
quote = "=1.0.47"
proc-macro2 = "=1.0.107"
serde = { version = "1", features = ["derive"] }
serde_tokenstream = "0.2"
