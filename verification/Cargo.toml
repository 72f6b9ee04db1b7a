[package]
name = "io_secret"
version = "0.1.0"
edition = "2021"
publish = false

[dependencies]
io-keyring = { version = "=0.0.2", features = ["std", "vendored"] }
io-process = { version = "=0.0.2", features = ["std"] }
memchr = "=2.8.3"
secrecy = "=0.10.3"
