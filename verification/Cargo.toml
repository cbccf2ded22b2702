[package]
name = "fig"
version = "0.1.0"
edition = "2021"
publish = false

[dependencies]
gcode = "=0.7.0"
bytemuck = { version = "=1.25.2", features = ["derive"] }
cgmath = "=0.18.0"
pollster = "=0.3.0"
wgpu = "=0.16.3"
winit = "=0.28.7"
com-wrapper = "*"
dcommon = "=0.3.0-alpha1"
winapi = { version = "0.3", features = ["dwrite", "winerror", "unknwnbase"] }
wio = "*"
