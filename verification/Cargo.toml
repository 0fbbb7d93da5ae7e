[package]
name = "code_termination"
version = "0.1.0"
edition = "2021"
publish = false

[dependencies]
bevy = { version = "=0.17.3", default-features = false, features = ["std", "bevy_state", "bevy_window", "bevy_ui", "bevy_sprite", "bevy_text", "default_font"] }
