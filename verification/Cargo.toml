[package]
name = "sentinel"
version = "0.1.0"
edition = "2021"
publish = false

[dependencies]
fs2 = "=0.4.3"
egui = { version = "=0.37.0", default-features = false, features = ["default_fonts"] }
eframe = { version = "=0.37.0", default-features = false, features = ["default_fonts", "glow", "x11"] }
windows = { version = "=0.59.0", features = ["Win32_Foundation", "Win32_Media_Audio", "Win32_Media_Audio_Endpoints", "Win32_System_Com", "Win32_System_Com_StructuredStorage", "Win32_System_Registry", "Win32_System_SystemInformation", "Win32_System_Threading", "Win32_System_Variant", "Win32_UI_Accessibility", "Win32_UI_Input_KeyboardAndMouse", "Win32_UI_WindowsAndMessaging"] }
