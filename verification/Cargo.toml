[package]
name = "arboard"
version = "0.1.0"
edition = "2021"
publish = false

[dependencies]
image = { version = "=0.25.6", default-features = false, features = ["png", "bmp", "tiff"] }
x11rb = "=0.13.2"
wl-clipboard-rs = "=0.9.5"
log = "=0.4.35"
parking_lot = "=0.12.5"
thiserror = "=1.0.69"
