[package]
name = "voxel_engine"
version = "0.1.0"
edition = "2021"
publish = false

[dependencies]
bimap = { version = "=0.6.3", default-features = false, features = ["std"] }
bevy = { version = "0.16", default-features = false, features = ["std", "async_executor", "multi_threaded", "bevy_asset", "bevy_color", "bevy_core_pipeline", "bevy_pbr", "bevy_render", "bevy_state", "bevy_window", "bevy_winit", "x11"] }
