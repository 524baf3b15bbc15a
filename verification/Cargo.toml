[package]
name = "ronincraft"
version = "0.1.0"
edition = "2021"
publish = false

[dependencies]
bevy = { version = "=0.17.3", default-features = false, features = ["std", "bevy_state", "bevy_ui", "bevy_pbr", "bevy_audio", "bevy_text", "bevy_window", "bevy_core_pipeline", "default_font", "wav"] }
noise = "=0.9.0"
rand = "=0.9.5"
ron = "=0.10.1"
serde = { version = "1", features = ["derive"] }
