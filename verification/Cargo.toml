[package]
name = "screen_recording"
version = "0.1.0"
edition = "2021"
publish = false

[dependencies]
chrono = { version = "=0.4.45", default-features = false, features = ["clock", "std"] }
image = { version = "=0.25.10", default-features = false, features = ["jpeg"] }
muxide = "=0.2.5"
ratatui = { version = "=0.29.0", default-features = false }
serde = { version = "=1.0.229", features = ["derive"] }
serde_json = "=1.0.154"
tokio = { version = "=1.54.1", features = ["macros", "rt-multi-thread", "sync", "time"] }
tokio-util = "=0.7.20"
tracing = "=0.1.44"
walkdir = "=2.5.0"
objc2 = "*"
objc2-core-foundation = "*"
objc2-core-graphics = "*"
objc2-core-media = "*"
objc2-core-video = "*"
objc2-foundation = "*"
objc2-video-toolbox = "*"
objc2-vision = "*"
xcap = "*"
