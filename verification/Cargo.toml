[package]
name = "cooldown-buffer"
version = "0.1.0"
edition = "2021"
publish = false

[dependencies]
thread_timer = "*"
