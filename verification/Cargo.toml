[package]
name = "convertia"
version = "0.1.0"
edition = "2021"
publish = false

[dependencies]
seccompiler = "=0.5.0"
libc = "=0.2.191"
serde = { version = "=1.0.229", features = ["derive"] }
tokio = { version = "=1.54.1", features = ["process", "io-util", "rt", "rt-multi-thread", "time", "sync", "macros"] }
tokio-util = "=0.7.20"
process-wrap = { version = "=9.1.1", features = ["tokio1"] }
dunce = "=1.0.5"
rustix = { version = "=1.1.6", features = ["fs"] }
landlock = "=0.4.7"
windows-sys = { version = "=0.61.2", features = ["Wdk_Storage_FileSystem", "Win32_Foundation", "Win32_Security", "Win32_Security_Authorization", "Win32_Storage_FileSystem", "Win32_System_IO", "Win32_System_JobObjects", "Win32_System_Threading"] }
