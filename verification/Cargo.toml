[package]
name = "skynet-client"
version = "0.1.0"
edition = "2021"
publish = false

[dependencies]
byteorder = "=1.5.0"
chrono = { version = "=0.4.45", default-features = false, features = ["clock", "std"] }
urlencoding = "=2.1.3"
serde = { version = "=1.0.229", features = ["derive"] }
serde_json = "=1.0.154"
reqwest = { version = "=0.11.27", default-features = false, features = ["json"] }
windows-sys = { version = "=0.59.0", features = ["Win32_Foundation", "Win32_System_Memory", "Win32_System_DataExchange", "Win32_System_Threading", "Win32_UI_WindowsAndMessaging"] }
fsuipc = "*"
