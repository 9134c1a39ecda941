[package]
name = "faust-state"
version = "0.1.0"
edition = "2021"
publish = false

[dependencies]
faust-types = { version = "=0.2.1", default-features = false }
rtrb = "=0.1.4"
