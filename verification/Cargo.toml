[package]
name = "autosprint-mcbe"
version = "0.1.0"
edition = "2021"
publish = false

[dependencies]
directories = "5"
windows = { version = "0.52", features = [
    "Win32_Foundation",
    "Win32_Security",
    "Win32_System_Threading",
    "Win32_UI_Input_KeyboardAndMouse",
    "Win32_UI_WindowsAndMessaging",
] }
