[package]
name = "headless_console"
version = "0.1.0"
edition = "2021"
publish = false

[dependencies]
bevy = { version = "0.17", default-features = false }
clap = { version = "4", features = ["derive"] }
shlex = "1"
