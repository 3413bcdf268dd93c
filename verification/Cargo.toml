[package]
name = "maker_web"
version = "0.3.0"
edition = "2021"
publish = false

[dependencies]
bytes = "1"
dashmap = "6"
http = "1"
itoa = "1"
once_cell = "1"
thiserror = "1"
tokio = { version = "1", default-features = false, features = ["fs", "io-util", "macros", "net", "rt", "rt-multi-thread"] }
