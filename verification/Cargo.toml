[package]
name = "nbdmount"
version = "0.1.0"
edition = "2021"
publish = false

[dependencies]
async-trait = "0.1"
nix = "0.22"
tokio = { version = "1", features = ["fs", "io-util", "net", "rt"] }
