[package]
name = "avel_lib"
version = "0.1.0"
edition = "2021"
publish = false

[dependencies]
blake3 = "=1.8.7"
serde = { version = "=1.0.229", features = ["derive"] }
serde_json = "=1.0.154"
rusqlite = { version = "=0.32.1", features = ["bundled"] }
chrono = "=0.4.45"
image = { version = "=0.25.10", default-features = false, features = ["png", "jpeg", "webp"] }
base64 = "=0.22.1"
dirs = "=5.0.1"
log = "=0.4.35"
windows = { version = "=0.58.0", features = ["Win32_Foundation", "Win32_Devices_Display", "Win32_Graphics_Gdi", "Win32_Storage_FileSystem", "Win32_System_Com", "Win32_System_Ole", "Win32_System_ProcessStatus", "Win32_System_Threading", "Win32_System_Wmi", "Win32_System_Variant", "Win32_UI_Shell", "Win32_UI_WindowsAndMessaging"] }
windows-sys = { version = "=0.59.0", features = ["Win32_Foundation", "Win32_Graphics_Gdi", "Win32_System_DataExchange", "Win32_System_Memory", "Win32_System_IO", "Win32_Storage_FileSystem", "Win32_UI_WindowsAndMessaging", "Win32_UI_Shell"] }
winreg = "=0.52.0"

[dev-dependencies]
tempfile = "=3.27.0"
