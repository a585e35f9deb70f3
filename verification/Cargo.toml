[package]
name = "masonry"
version = "0.1.0"
edition = "2021"
publish = false

[dependencies]
accesskit = "0.16"
smallvec = "1.13"
tracing = "0.1"
vello = { version = "0.2", default-features = false }
