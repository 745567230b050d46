[package]
name = "gradient_shapes"
version = "0.1.0"
edition = "2021"
publish = false

[dependencies]
lyon_tessellation = "1.0"
lyon_algorithms = "1.0"
bevy = { version = "0.16", default-features = false, features = ["bevy_asset", "bevy_color", "bevy_render", "bevy_sprite"] }
