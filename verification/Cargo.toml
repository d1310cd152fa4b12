[package]
name = "egui_keybinds"
version = "0.1.0"
edition = "2021"
publish = false

[dependencies]
device_query = "1"
egui = "0.27"
once_cell = "1"
