[package]
name = "procedural_map"
version = "0.1.0"
edition = "2021"
publish = false

[dependencies]
rand = "0.8"
log = "0.4"
bevy_tasks = { version = "0.14", features = ["multi_threaded"] }
