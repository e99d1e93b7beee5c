[package]
name = "rlpx_multiplex"
version = "0.1.0"
edition = "2021"
publish = false

[dependencies]
async-trait = "0.1"
bytes = "1"
futures = "0.3"
tokio = { version = "1", features = ["macros", "rt", "sync"] }
tokio-stream = "0.1"
