[package]
name = "vt_render"
version = "0.1.0"
edition = "2021"
publish = false

[dependencies]
egui = "=0.27.2"
