[package]
name = "render"
version = "0.1.0"
edition = "2021"
publish = false

[dependencies]
unicode-segmentation = "*"
emojis = "*"
harfrust = "*"
unicode-bidi = "*"
ab_glyph = "*"
wgpu = "*"
winit = "*"
pollster = "*"
bytemuck = { version = "*", features = ["derive"] }
fontdb = "*"
swash = "*"
skrifa = "*"
