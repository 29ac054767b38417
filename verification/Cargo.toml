[package]
name = "my-tcp-sockets"
version = "0.1.12"
edition = "2021"
publish = false

[dependencies]
tokio = { version = "=1.54.1", features = ["full"] }
async-trait = "=0.1.92"
futures = "=0.3.34"
