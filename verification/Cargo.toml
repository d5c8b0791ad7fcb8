[package]
name = "respkv"
version = "0.1.0"
edition = "2021"
publish = false

[dependencies]
crc32fast = "*"
hashbrown = "*"
parking_lot = "*"
tokio = { version = "*", features = ["rt-multi-thread", "net", "io-util", "macros"] }
tracing = "*"
tracing-subscriber = "*"
