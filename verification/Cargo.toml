[package]
name = "mybar"
version = "0.1.0"
edition = "2021"
publish = false

[dependencies]
xcb = "=1.7.1"
xcb-wm = { version = "=0.4.0", features = ["ewmh"] }
cairo-rs = "*"
cairo-sys-rs = "*"
chrono = "*"
ddc-hi = "*"
alsa = "*"
