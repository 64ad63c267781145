[package]
name = "voxel_engine"
version = "0.1.0"
edition = "2021"
publish = false

[dependencies]
bevy = { version = "0.10", default-features = false, features = ["bevy_asset", "bevy_core_pipeline", "bevy_pbr", "bevy_render", "bevy_text", "bevy_ui", "bevy_winit", "x11"] }
bracket-noise = "0.8"
rand = "0.8"
rayon = "1"
smooth-bevy-cameras = "0.8"
