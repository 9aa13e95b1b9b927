[package]
name = "windows_clear"
version = "0.1.0"
edition = "2021"
publish = false

[dependencies]
anyhow = "1"
crossbeam-channel = "0.5"
directories = "5"
filetime = "0.2"
rayon = "1"
serde = { version = "1", features = ["derive"] }
serde_json = "1"
uuid = { version = "1", features = ["v4"] }
walkdir = "2"
windows = { version = "0.48", features = ["Win32_Foundation", "Win32_Security", "Win32_System_RestartManager", "Win32_System_Threading"] }
