[package]
name = "network_engine"
version = "0.1.0"
edition = "2021"
publish = false

[dependencies]
windows-sys = { version = "0.59", features = ["Win32_Foundation", "Win32_Security", "Win32_System_Rpc", "Win32_NetworkManagement_WindowsFilteringPlatform"] }
