[package]
name = "media_capture"
version = "0.1.0"
edition = "2021"
publish = false

[dependencies]
uuid = { version = "=1.27.0", features = ["v4"] }
libc = "*"
block2 = "*"
objc2 = "*"
objc2-foundation = "*"
core-foundation = "*"
coreaudio-rs = "=0.12.1"
screencapturekit = "*"
