[package]
name = "qualirs"
version = "0.1.0"
edition = "2021"
publish = false

[dependencies]
syn = { version = "2", features = ["full", "visit", "extra-traits"] }
proc-macro2 = { version = "1", features = ["span-locations"] }
quote = "1"
toml = "*"
libc = "0.2"
windows-sys = { version = "*", features = ["Win32_Foundation", "Win32_System_ProcessStatus", "Win32_System_Threading"] }
