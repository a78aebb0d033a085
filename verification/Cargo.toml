[package]
name = "secretstream"
version = "0.1.0"
edition = "2021"
publish = false

[dependencies]
chacha20 = { version = "=0.10.2", features = ["xchacha"] }
poly1305 = "=0.9.1"
subtle = "=2.6.1"
getrandom = "=0.4.3"
zeroize = "=1.9.1"
