[package]
name = "acc_telemetry"
version = "0.1.0"
edition = "2021"
publish = false

[dependencies]
chrono = "0.4"
serde = { version = "1", features = ["derive"] }
serde_json = "1"
windows = { version = "0.58", features = ["Win32_Foundation", "Win32_System_Memory", "Win32_UI_Input_KeyboardAndMouse"] }
