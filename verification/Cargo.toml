[package]
name = "particle_pool"
version = "0.1.0"
edition = "2021"
publish = false

[dependencies]
ringbuffer = "0.8"
fastrand = "1"
bevy = { version = "0.6", default-features = false, features = ["bevy_winit", "render", "x11"] }
bevy_atmosphere = "0.2"
heron = "2"
