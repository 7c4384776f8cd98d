[package]
name = "ducta"
version = "0.1.0"
edition = "2021"
publish = false

[dependencies]
httparse = "1"
mio = { version = "1", features = ["net", "os-poll"] }
ctrlc = "3"
