[package]
name = "agy_statusline"
version = "0.1.0"
edition = "2021"
publish = false

[dependencies]
serde = { version = "1", features = ["derive"] }
serde_json = "1"
console = "0.15"
ureq = { version = "3", features = ["json", "platform-verifier"] }
windows-sys = { version = "0.59", features = ["Win32_Foundation", "Win32_System_Console", "Win32_Security_Credentials", "Win32_System_Memory", "Win32_System_Threading"] }
