[package]
name = "sysinfo"
version = "0.1.0"
edition = "2021"
publish = false

[dependencies]
rayon = "1"
winapi = { version = "0.3", features = ["errhandlingapi", "handleapi", "minwindef", "pdh", "sysinfoapi", "winerror", "winnt", "winreg"] }
