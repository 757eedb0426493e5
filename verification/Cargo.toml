[package]
name = "quicksockets"
version = "0.1.0"
edition = "2021"
publish = false

[dependencies]
async-trait = "0.1"
base64 = "0.12"
byteorder = "1"
bytes = "0.5"
futures = "0.3"
httparse = "1"
native-tls = "0.2"
rust-crypto = "0.2"
tokio = { version = "0.2", features = ["dns", "io-util", "macros", "rt-threaded", "stream", "tcp"] }
tokio-tls = "0.3"
tokio-util = { version = "0.3", features = ["codec"] }
