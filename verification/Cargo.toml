[package]
name = "sniff_proxy"
version = "0.1.0"
edition = "2021"
publish = false

[dependencies]
memchr = "2"
tokio = { version = "1", features = ["net", "io-util", "time", "macros", "rt-multi-thread"] }
futures = "0.3"
