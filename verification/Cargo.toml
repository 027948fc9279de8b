[package]
name = "talc"
version = "0.1.0"
edition = "2021"
publish = false

[dependencies]
anyhow = "1"
bevy_app = "0.16"
bevy_ecs = "0.16"
bevy_math = "0.16"
bevy_platform = "0.16"
bevy_tasks = "0.16"
bevy_time = "0.16"
bevy_transform = "0.16"
bracket-noise = "0.8"
bytemuck = { version = "1", features = ["derive"] }
futures-lite = "2"
mlua = { version = "0.10", features = ["luajit", "vendored"] }
serde = { version = "1", features = ["derive"] }
toml = "0.8"
