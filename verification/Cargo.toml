[package]
name = "rivals_rwinner"
version = "0.1.0"
edition = "2021"
publish = false

[dependencies]
rust-ini = "*"
color-eyre = "*"
tracing = "*"
tracing-subscriber = "*"
ctor = "*"
retour = { version = "*", features = ["static-detour"] }
dll-syringe = "*"
windows = { version = "*", features = ["Win32_Foundation", "Win32_System_LibraryLoader"] }
