[package]
name = "echo_server"
version = "0.1.0"
edition = "2021"
publish = false

[dependencies]
log = "0.4"
prost = { version = "0.13", default-features = false, features = ["std"] }
