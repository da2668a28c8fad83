[package]
name = "font_select"
version = "0.1.0"
edition = "2021"
publish = false

[dependencies]
font-kit = "*"
egui = "*"
