[package]
name = "proto_core"
version = "0.1.0"
edition = "2021"
publish = false

[dependencies]
sha2 = "*"
once_cell = "*"
rustc-hash = "*"
tokio = { version = "*", default-features = false, features = ["rt", "rt-multi-thread", "sync"] }
