[package]
name = "makepad_widgets"
version = "0.1.0"
edition = "2021"
publish = false

[dependencies]
makepad-platform = "*"
makepad-draw-2d = "*"
makepad-derive-widget = "*"
