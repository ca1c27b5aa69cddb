[package]
name = "cvrf_xmlparser"
version = "0.1.0"
edition = "2021"
publish = false

[dependencies]
xml-rs = "0.8"
serde = { version = "1", features = ["derive"] }
tracing = "0.1"
