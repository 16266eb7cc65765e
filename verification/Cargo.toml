[package]
name = "http_server"
version = "0.1.0"
edition = "2021"
publish = false

[dependencies]
serde = { version = "1", features = ["derive"] }
toml = "*"
windows-sys = { version = "*", features = ["Win32_Foundation", "Win32_Networking_WinSock"] }
