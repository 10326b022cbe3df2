[package]
name = "diagramide"
version = "0.1.0"
edition = "2021"
publish = false

[dependencies]
pulldown-cmark = { version = "0.13", default-features = false }
rand = "0.9"
tokio = { version = "1", features = ["rt", "rt-multi-thread", "sync", "time"] }
libloading = "0.8"
