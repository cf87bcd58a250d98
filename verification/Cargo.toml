[package]
name = "zlink"
version = "0.1.0"
edition = "2021"
publish = false

[dependencies]
rustix = { version = "1", features = ["net", "process", "pipe", "std"] }
libc = "0.2"
tokio = { version = "1", features = ["net", "rt"] }
async-io = "2"
serde = "1"
