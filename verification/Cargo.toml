[package]
name = "bios_release"
version = "0.1.0"
edition = "2021"
publish = false

[dependencies]
regex = "1"
chrono = "0.4"
zip = "0.6"
anyhow = "1"
windows = { version = "0.57", features = ["Win32_Foundation", "Win32_System_DataExchange", "Win32_System_Memory", "Win32_System_Com", "Win32_System_Ole", "Win32_System_Variant"] }
