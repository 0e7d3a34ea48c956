[package]
name = "bevy_driver"
version = "0.1.0"
edition = "2021"
publish = false

[dependencies]
rand = "=0.9.5"
rand_chacha = "=0.9.0"
rayon = "=1.12.0"
serde = { version = "=1.0.229", features = ["derive"] }
serde_json = "=1.0.154"
chrono = { version = "=0.4.45", features = ["serde"] }
directories = "=6.0.0"
bevy = { version = "=0.17.3", default-features = false, features = ["std", "bevy_state", "bevy_window", "bevy_winit", "bevy_render", "bevy_core_pipeline", "bevy_sprite", "bevy_sprite_render", "bevy_color", "bevy_asset", "bevy_post_process", "x11"] }
