[package]
name = "hop_engine"
version = "0.1.0"
edition = "2021"
publish = false

[dependencies]
arrayvec = "0.5"
dashmap = "4"
futures-intrusive = "0.4"
