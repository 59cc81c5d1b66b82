[package]
name = "potato_ws"
version = "0.1.0"
edition = "2021"
publish = false

[dependencies]
nix = "0.26"
libc = "0.2"
rtnetlink = "0.9"
tokio = { version = "1", features = ["rt-multi-thread"] }
futures = "0.3"
ipnetwork = "0.20"
