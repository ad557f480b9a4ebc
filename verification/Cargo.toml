[package]
name = "bevy_ecs"
version = "0.1.0"
edition = "2021"
publish = false

[dependencies]
smallvec = "1"
bevy_utils = "*"
bevy_platform = "*"
derive_more = { version = "*", features = ["deref", "deref_mut", "display", "error"] }
