[package]
name = "taskbench"
version = "0.1.0"
edition = "2021"
publish = false

[dependencies]
rand = "0.8"
rand_chacha = "0.3"
tokio = { version = "1", features = ["rt-multi-thread", "net", "io-util", "macros"] }
tokio-rayon = "2"
