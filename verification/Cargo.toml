[package]
name = "lingot"
version = "0.1.0"
edition = "2021"
publish = false

[dependencies]
cpal = "*"
crossbeam-channel = "*"
eframe = { version = "0.34", default-features = false, features = ["glow", "x11"] }
num-complex = "*"
ratatui = { version = "0.29", default-features = false, features = ["crossterm"] }
rustfft = "*"
thiserror = "*"
tungstenite = "*"
uom = "*"
