[package]
name = "tuf"
version = "0.1.0"
edition = "2021"
publish = false

[dependencies]
futures-io = "*"
futures-util = "*"
parking_lot = "*"
