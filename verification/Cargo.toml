[package]
name = "sph_fluid"
version = "0.1.0"
edition = "2021"
publish = false

[dependencies]
bevy = { version = "0.9", default-features = false, features = ["bevy_asset", "bevy_core_pipeline", "bevy_pbr", "bevy_render"] }
bytemuck = { version = "1", features = ["derive"] }
imgui = "0.9"
imgui-wgpu = "0.21"
wgpu = "0.14"
