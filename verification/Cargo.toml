[package]
name = "aedat_io"
version = "0.1.0"
edition = "2021"
publish = false

[dependencies]
lz4 = "=1.28.1"
xml = "=1.4.0"
flatbuffers = "=25.12.19"
tokio = { version = "=1.54.1", features = ["io-util", "fs", "rt-multi-thread", "macros"] }
async-trait = "=0.1.92"
