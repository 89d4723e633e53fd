[package]
name = "can_decode"
version = "0.1.0"
edition = "2021"
publish = false

[dependencies]
bitvec = "1"
ux = "0.1"
strum = { version = "0.26", features = ["derive"] }
