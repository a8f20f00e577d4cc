[package]
name = "biology"
version = "0.1.0"
edition = "2021"
publish = false

[dependencies]
bevy = { version = "0.5", default-features = false, features = ["render"] }
bevy_egui = { version = "0.5", default-features = false }
