[package]
name = "bao_integrity"
version = "0.1.0"
edition = "2021"
publish = false

[dependencies]
anyhow = "1"
bao = "*"
blake3 = "1"
flutter_rust_bridge = "1"
