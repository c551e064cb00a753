[package]
name = "rustdirlister"
version = "0.1.0"
edition = "2021"
publish = false

[dependencies]
anyhow = "=1.0.104"
axum = "=0.8.9"
chrono = "=0.4.45"
httparse = "=1.10.1"
httpdate = "=1.0.3"
hyper = "=1.12.0"
libflate = "=2.3.2"
mime_guess = "=2.0.5"
nix = { version = "=0.29.0", features = ["zerocopy", "fs"] }
once_cell = "=1.21.4"
percent-encoding = "=2.3.2"
rand = "=0.9.5"
serde = { version = "=1.0.229", features = ["derive"] }
serde_json = "=1.0.154"
tera = { version = "=1.20.1", default-features = false }
tokio = { version = "=1.54.1", features = ["full"] }
tokio-util = { version = "=0.7.20", features = ["io"] }
tower-cookies = { version = "=0.11.0", features = ["signed"] }
urlencoding = "=2.1.3"
walkdir = "=2.5.0"
windows-sys = { version = "=0.61.2", features = ["Win32_Networking_WinSock", "Win32_System_IO"] }
