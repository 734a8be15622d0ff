[package]
name = "rewind"
version = "0.1.0"
edition = "2021"
publish = false

[dependencies]
chrono = "0.4"
im = "15"
uuid = "1"
