[package]
name = "bing_wallpaper"
version = "0.1.0"
edition = "2021"
publish = false

[dependencies]
image = { version = "*", default-features = false, features = ["ico"] }
reqwest = { version = "*", default-features = false }
tempfile = "*"
time = { version = "*", features = ["formatting", "parsing", "local-offset"] }
tokio = { version = "*", features = ["rt-multi-thread", "sync", "time", "macros"] }
tracing = "*"
tracing-appender = "*"
tracing-subscriber = { version = "*", default-features = false, features = ["fmt", "time", "local-time"] }
tray-icon = "*"
windows = { version = "*", features = ["Win32_UI_WindowsAndMessaging"] }
winit = "*"
