[package]
name = "experiment_lib"
version = "0.1.0"
edition = "2021"
publish = false

[dependencies]
crossbeam = "0.8"
async-channel = "*"
async-executor = "*"
async-task = "*"
flume = "*"
futures = "*"
futures-lite = "*"
parking_lot = "*"
slab = "*"
smol = "*"
tokio = { version = "1", features = ["rt-multi-thread", "sync"] }
