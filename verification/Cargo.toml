[package]
name = "cold"
version = "0.1.0"
edition = "2021"
publish = false

[dependencies]
anyhow = "=1.0.104"
object = { version = "0.36", default-features = false, features = ["read", "write"] }
tracing = "=0.1.44"
tracing-subscriber = "=0.3.23"
typed-arena = "=2.0.2"
