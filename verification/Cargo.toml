[package]
name = "lucisocks"
version = "0.1.0"
edition = "2021"
publish = false

[dependencies]
sha2 = "*"
tailscale = "*"
tokio = { version = "1", features = ["io-util", "macros", "net", "rt-multi-thread", "time"] }
