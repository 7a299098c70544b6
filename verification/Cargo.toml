[package]
name = "desklaunch"
version = "0.1.0"
edition = "2021"
publish = false

[dependencies]
freedesktop_entry_parser = "*"
home = "*"
eframe = { version = "=0.22.0", default-features = false, features = ["glow"] }
