[package]
name = "launchcore"
version = "0.1.0"
edition = "2021"
publish = false

[dependencies]
libc = "0.2"
reqwest = { version = "0.12", default-features = false }
tokio = { version = "1", features = ["rt", "rt-multi-thread", "time", "macros", "sync"] }
