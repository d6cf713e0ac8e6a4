[package]
name = "loghound"
version = "0.1.0"
edition = "2021"
publish = false

[dependencies]
anyhow = "1"
chrono = "0.4"
clap = { version = "4", features = ["derive"] }
serde = { version = "1", features = ["derive"] }
thiserror = "2"
toml = "0.8"
tracing-appender = "0.2"
windows = { version = "0.58", features = ["Win32_Foundation", "Win32_Globalization", "Win32_System_Memory", "Win32_System_Threading", "Win32_System_Console"] }
windows-service = "0.7"
