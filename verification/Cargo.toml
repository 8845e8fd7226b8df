[package]
name = "battleship"
version = "0.1.0"
edition = "2021"
publish = false

[dependencies]
uuid = { version = "=1.29.0", features = ["v4"] }
tokio = { version = "=1.54.1", features = ["sync", "rt-multi-thread", "macros"] }
tonic = "=0.14.6"
tonic-prost = "0.14"
prost = "0.14"
