[package]
name = "imgclip"
version = "0.1.0"
edition = "2021"
publish = false

[dependencies]
png = "*"
winapi = { version = "0.3", features = ["winuser", "wingdi", "winbase", "libloaderapi", "errhandlingapi", "minwindef", "ntdef", "windef", "winerror"] }
crossbeam-channel = "*"
lazy_static = "*"
