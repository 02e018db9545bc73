[package]
name = "nanorun"
version = "0.1.0"
edition = "2021"
publish = false

[dependencies]
libc = "0.2"
windows-sys = { version = "0.52", features = ["Win32_Foundation", "Win32_System_IO", "Win32_Networking_WinSock"] }
