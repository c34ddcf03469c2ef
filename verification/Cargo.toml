[package]
name = "ianua"
version = "0.1.0"
edition = "2021"
publish = false

[dependencies]
anyhow = "1"
arboard = { version = "3", default-features = false }
base64 = "0.22"
bytemuck = { version = "1", features = ["derive"] }
glyphon = "0.11"
notify-rust = "4"
pollster = "0.4"
portable-pty = "0.9"
serde = { version = "1", features = ["derive"] }
toml = "0.9"
unicode-width = "0.2"
vte = "0.15"
wgpu = "29"
winit = "0.30"
