[package]
name = "sink_adapters"
version = "0.1.0"
edition = "2021"
publish = false

[dependencies]
either = "1"
futures-core = "0.3"
futures-sink = "0.3"
