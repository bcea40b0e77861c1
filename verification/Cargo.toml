[package]
name = "query_entry"
version = "0.1.0"
edition = "2021"
publish = false

[dependencies]
bevy_ecs = { version = "0.16", default-features = false, features = ["std"] }
bevy_utils = { version = "0.16" }
