[package]
name = "aquerty_stop"
version = "0.1.0"
edition = "2021"
publish = false

[dependencies]
hmac = "=0.12.1"
sha2 = "=0.10.9"
hex = "=0.4.3"
serde = { version = "=1.0.229", features = ["derive"] }
serde_json = "=1.0.154"
dirs = "=7.0.0"
sysinfo = "=0.40.1"
chrono = "=0.4.45"
parking_lot = "=0.12.5"
windows = { version = "=0.62.2", features = ["Win32_Foundation", "Win32_System_Power", "Win32_System_Shutdown", "Win32_System_SystemInformation", "Win32_System_Threading", "Win32_UI_Input_KeyboardAndMouse"] }
