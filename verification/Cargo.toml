[package]
name = "bevy_egui"
version = "0.1.0"
edition = "2021"
publish = false

[dependencies]
arboard = "3.2"
bevy_app = "0.15"
bevy_asset = "0.15"
bevy_derive = "0.15"
bevy_ecs = "0.15"
bevy_image = "0.15"
bevy_input = "0.15"
bevy_log = "0.15"
bevy_math = "0.15"
bevy_picking = "0.15"
bevy_reflect = "0.15"
bevy_render = "0.15"
bevy_utils = "0.15"
bevy_window = "0.15"
bevy_winit = { version = "0.15", features = ["x11"] }
crossbeam-channel = "0.5"
egui = { version = "0.29", default-features = false }
encase = "0.10"
log = "0.4"
thread_local = "1.1"
wasm-bindgen = "0.2"
web-sys = "0.3"
wgpu-types = "23"
