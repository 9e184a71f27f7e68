[package]
name = "furina"
version = "0.1.0"
edition = "2021"
publish = false

[dependencies]
bson = "2"
zstd = "*"
hudhook = "*"
retour = { version = "*", features = ["static-detour"] }
tracing-subscriber = { version = "*", features = ["env-filter"] }
windows = { version = "*", features = ["Win32_Foundation", "Win32_System_LibraryLoader", "Win32_System_SystemServices"] }
