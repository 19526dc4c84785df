[package]
name = "send_core"
version = "0.1.0"
edition = "2021"
publish = false

[dependencies]
urlencoding = "=2.1.3"
uuid = { version = "=1.27.0", features = ["v4"] }
reqwest = { version = "=0.13.5", default-features = false, features = ["multipart", "form"] }
tokio = { version = "=1.53.2", default-features = false, features = ["rt-multi-thread", "fs", "time"] }
