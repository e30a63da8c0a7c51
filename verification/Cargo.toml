[package]
name = "pagestore"
version = "0.1.0"
edition = "2021"
publish = false

[dependencies]
byteorder = "1"
rio = "0.9"
tokio = { version = "1", default-features = false, features = ["fs", "net", "rt", "rt-multi-thread", "sync"] }
