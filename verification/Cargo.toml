[package]
name = "notify_bridge"
version = "0.1.0"
edition = "2021"
publish = false

[dependencies]
notify-rust = "4"
