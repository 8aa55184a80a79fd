[package]
name = "tab_hover"
version = "0.1.0"
edition = "2021"
publish = false

[dependencies]
serde_json = "1"
anyhow = "1"
log = "0.4"
env_logger = { version = "*", default-features = false }
chrono = { version = "*", default-features = false, features = ["clock"] }
image = { version = "*", default-features = false, features = ["png"] }
xcap = "*"
active-win-pos-rs = "*"
windows = { version = "*", features = ["Win32_Foundation", "Win32_UI_WindowsAndMessaging", "Win32_UI_HiDpi"] }
