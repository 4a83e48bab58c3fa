[package]
name = "thestickening"
version = "0.1.0"
edition = "2021"
publish = false

[dependencies]
rand = "=0.10.3"
gilrs = "=0.11.2"
serde = { version = "=1.0.229", features = ["derive"] }
toml = "=1.1.6"
dirs = "=7.0.0"
windows-sys = { version = "=0.61.2", features = ["Win32_Foundation", "Win32_UI_Input_KeyboardAndMouse"] }
