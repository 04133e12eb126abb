[package]
name = "sr5900p"
version = "0.1.0"
edition = "2021"
publish = false

[dependencies]
anyhow = "1"
argh = "0.1"
embedded-graphics = "0.8"
png = "0.17"
