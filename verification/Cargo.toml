[package]
name = "simplestt"
version = "0.1.0"
edition = "2021"
publish = false

[dependencies]
cpal = "0.15"
directories = "5"
log = "0.4"
ringbuf = "0.4"
serde = { version = "1", features = ["derive"] }
simplelog = "0.12"
toml = "0.8"
whisper-rs = "0.15"
windows = { version = "0.58", features = ["Win32_Foundation", "Win32_Graphics_Gdi", "Win32_System_LibraryLoader", "Win32_UI_Input_KeyboardAndMouse", "Win32_UI_WindowsAndMessaging"] }
