[package]
name = "usb_device"
version = "0.3.2"
edition = "2021"
publish = false

[dependencies]
heapless = "0.8"
