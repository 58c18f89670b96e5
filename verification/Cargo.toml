[package]
name = "animation_engine"
version = "0.1.0"
edition = "2021"
publish = false

[dependencies]
bevy_math = "=0.10.1"
bevy_ecs = "=0.10.1"
bevy_hierarchy = "=0.10.1"
bevy_transform = "=0.10.1"
bevy_time = "=0.10.1"
bevy_core = "=0.10.1"
bevy_log = "=0.10.1"
disqualified = "=1.1.0"
palette = "=0.7.7"
