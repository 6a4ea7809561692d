[package]
name = "cursor_hero"
version = "0.1.0"
edition = "2021"
publish = false

[dependencies]
anyhow = "1"
bevy = { version = "0.12", default-features = false }
enigo = "0.2"
itertools = "0.12"
reqwest = { version = "0.11", default-features = false }
uiautomation = "0.8"
