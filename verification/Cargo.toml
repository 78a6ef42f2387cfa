[package]
name = "turboplot"
version = "0.1.0"
edition = "2021"
publish = false

[dependencies]
fixed = "=1.31.0"
bytemuck = { version = "=1.25.2", features = ["derive"] }
clap = { version = "=4.6.7", features = ["derive"] }
eframe = { version = "=0.32.3", default-features = false, features = ["wgpu", "default_fonts", "x11", "wayland"] }
egui = "=0.32.3"
egui-file-dialog = "0.11"
npyz = "0.8"
muscat = "=0.3.0"
sci-rs = "=0.4.1"
biquad = "=0.6.0"
pollster = "0.4"
