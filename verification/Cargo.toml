[package]
name = "zenutils"
version = "0.1.0"
edition = "2021"
publish = false

[dependencies]
public-api = "0.52.1"
rustup-toolchain = "0.1"
serde_json = "1"
