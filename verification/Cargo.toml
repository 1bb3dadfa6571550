[package]
name = "meerkat"
version = "0.1.0"
edition = "2021"
publish = false

[dependencies]
inline_colorization = "0.1"
tokio = { version = "1", features = ["rt-multi-thread", "macros", "sync", "io-util", "io-std", "time"] }
tracing = "0.1"
tracing-appender = "0.2"
tracing-subscriber = "0.3"
