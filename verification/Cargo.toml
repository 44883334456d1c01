[package]
name = "sendprop"
version = "0.1.0"
edition = "2021"
publish = false

[dependencies]
bitbuffer = "0.10"
enumflags2 = "0.7"
fnv = "1.0"
parse-display = "0.8"
serde = { version = "1.0", features = ["derive"] }
