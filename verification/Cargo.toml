[package]
name = "touch_display"
version = "0.1.0"
edition = "2021"
publish = false

[dependencies]
cortex-m = "0.5"
cortex-m-rt = "0.6"
cortex-m-semihosting = "0.3"
embedded-hal = { version = "0.2", features = ["unproven"] }
nb = "0.1"
panic-semihosting = "0.5"
vga-framebuffer = "*"
