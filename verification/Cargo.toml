[package]
name = "sound_shader"
version = "0.1.0"
edition = "2021"
publish = false

[dependencies]
bytemuck = "*"
clap = "*"
cpal = "*"
ctrlc = "*"
hound = "*"
naga = { version = "*", features = ["glsl-in", "wgsl-out"] }
pollster = "*"
rustfft = "*"
serde = { version = "*", features = ["derive"] }
serde_json = "*"
wgpu = "*"
