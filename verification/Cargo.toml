[package]
name = "xcreen"
version = "0.1.0"
edition = "2021"
publish = false

[dependencies]
image = { version = "0.25", default-features = false, features = ["png"] }
log = { version = "0.4", features = ["std"] }
notify = "8"
serde = { version = "1", features = ["derive"] }
serde_json = "1"
tray-icon = "*"
windows = { version = "0.52", features = ["Devices_Sensors", "Foundation", "Win32_Foundation", "Win32_Graphics_Dwm", "Win32_Graphics_Gdi", "Win32_System_LibraryLoader", "Win32_System_Threading", "Win32_UI_HiDpi", "Win32_UI_Input_KeyboardAndMouse", "Win32_UI_Shell", "Win32_UI_WindowsAndMessaging"] }
windows-reactor = "*"
winreg = "*"
