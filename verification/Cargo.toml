[package]
name = "vidiotic"
version = "0.1.0"
edition = "2021"
publish = false

[dependencies]
anyhow = "1.0.104"
block2 = "0.6.2"
bytemuck = { version = "1.25.2", features = ["derive"] }
clap = { version = "4.6.7", features = ["derive"] }
cpal = "0.18.2"
crossbeam-channel = "0.5.17"
egui = { version = "0.34.3", default-features = false, features = ["default_fonts"] }
egui-wgpu = { version = "0.34.3", default-features = false }
egui-winit = { version = "0.34.3", default-features = false, features = ["x11"] }
env_logger = { version = "0.11.11", default-features = false }
ffmpeg-next = "8.1.0"
log = "0.4.35"
nanoserde = "0.2.1"
notify = "8.2.1"
objc2 = "0.6.5"
objc2-av-foundation = "0.3.2"
objc2-core-media = "0.3.2"
objc2-foundation = "0.3.2"
pollster = "0.4.0"
rfd = { version = "0.17.2", default-features = false, features = ["xdg-portal"] }
rtrb = "0.3.6"
rustfft = "6.4.1"
rusty_link = "0.4.9"
texpresso = "=2.0.2"
triple_buffer = "8.1.1"
wgpu = { version = "29.0.4", default-features = false, features = ["std", "metal", "wgsl", "glsl", "naga-ir"] }
winit = { version = "0.30.13", default-features = false, features = ["x11", "rwh_06"] }
