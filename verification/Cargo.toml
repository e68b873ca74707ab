[package]
name = "symview"
version = "0.1.0"
edition = "2021"
publish = false

[dependencies]
walkdir = "*"
rusqlite = { version = "*", features = ["bundled"] }
serde = { version = "*", features = ["derive"] }
serde_json = "*"
toml = "*"
csv = "*"
chrono = "*"
dirs = "*"
tokio = { version = "*", features = ["rt-multi-thread", "macros", "time"] }
windows-sys = { version = "*", features = ["Win32_Foundation", "Win32_Storage_FileSystem", "Win32_System_IO", "Win32_System_Ioctl"] }
