[package]
name = "camo_reader"
version = "0.1.0"
edition = "2021"
publish = false

[dependencies]
egui = { version = "=0.37.0", features = ["default_fonts"] }
egui_glow = { version = "=0.37.0", features = ["winit"] }
egui-winit = { version = "=0.37.0", default-features = false }
global-hotkey = "=0.9.0"
glow = "=0.17.0"
glutin = "=0.32.3"
glutin-winit = "=0.5.0"
raw-window-handle = "=0.6.2"
rust-ini = "=0.21.3"
tray-item = "=0.10.0"
winit = "=0.30.13"
