[package]
name = "fm_core"
version = "0.1.0"
edition = "2021"
publish = false

[dependencies]
anyhow = "1"
image = "0.24"
libc = "0.2"
syntect = { version = "5", default-features = false, features = ["default-fancy"] }
tokio = { version = "1", features = ["rt-multi-thread", "macros", "fs", "process", "time", "io-util", "sync"] }
tracing = "0.1"
