[package]
name = "arkyve_refresh_shop"
version = "0.1.0"
edition = "2021"
publish = false

[dependencies]
anyhow = "=1.0.104"
eframe = { version = "=0.33.3", default-features = false, features = ["default_fonts", "glow", "x11"] }
egui = "=0.33.3"
egui-phosphor = "=0.11.0"
enigo = { version = "=0.6.1", default-features = false, features = ["xdo"] }
image = { version = "=0.25.10", default-features = false, features = ["png"] }
rand = "=0.10.3"
rand_distr = "=0.6.0"
rustls = { version = "=0.23.46", default-features = false, features = ["logging", "ring", "std", "tls12"] }
serde = { version = "=1.0.229", features = ["derive"] }
serde_json = "=1.0.154"
thiserror = "=2.0.21"
tokio = { version = "=1.54.1", features = ["macros", "rt-multi-thread", "signal", "sync", "time"] }
toml = "=0.9.12"
toml_edit = "=0.23.10"
tracing = "=0.1.44"
tracing-appender = "=0.2.5"
tracing-subscriber = { version = "=0.3.23", features = ["env-filter"] }
windows = { version = "=0.61.3", features = ["Win32_Foundation", "Win32_Networking_WinHttp", "Win32_System_SystemInformation", "Win32_UI_Input_KeyboardAndMouse", "Win32_UI_WindowsAndMessaging"] }
windows-sys = { version = "=0.61.2", features = ["Win32_Foundation", "Win32_Security", "Win32_Security_Authorization", "Win32_Security_Cryptography"] }
