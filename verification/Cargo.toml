[package]
name = "wterm"
version = "0.1.0"
edition = "2021"
publish = false

[dependencies]
anyhow = "=1.0.104"
cocoa = "=0.26.1"
eframe = { version = "=0.31.1", default-features = false, features = ["default_fonts", "glow", "x11"] }
objc = "=0.2.7"
portable-pty = "=0.9.0"
raw-window-handle = "=0.6.2"
unicode-width = "=0.2.3"
vte = "=0.15.0"
