[package]
name = "freally_player"
version = "0.30.0"
edition = "2021"
publish = false

[dependencies]
chardetng = "=1.0.0"
chrono = "=0.4.45"
directories = "=6.0.0"
encoding_rs = "=0.8.44"
libmpv2 = "=7.0.0"
log = "=0.4.35"
reqwest = { version = "=0.12.28", default-features = false, features = ["blocking", "rustls-tls"] }
serde = { version = "=1.0.229", features = ["derive"] }
serde_json = "=1.0.154"
sysinfo = "=0.40.1"
windows-sys = { version = "=0.61.2", features = ["Win32_Foundation", "Win32_Graphics_Gdi", "Win32_Graphics_OpenGL", "Win32_System_LibraryLoader", "Win32_UI_WindowsAndMessaging"] }
