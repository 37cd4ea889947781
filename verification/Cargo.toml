[package]
name = "whodat"
version = "0.1.0"
edition = "2021"
publish = false

[dependencies]
clap = { version = "=4.6.7", features = ["derive"] }
evdev = "0.13"
udev = "=0.8.0"
