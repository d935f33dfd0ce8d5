[package]
name = "papyr_core"
version = "0.1.0"
edition = "2021"
publish = false

[dependencies]
reqwest = { version = "0.12", features = ["blocking"] }
tokio = { version = "1", features = ["rt", "time", "macros"] }
mdns-sd = "*"
quick-xml = { version = "*", features = ["serialize"] }
serde = { version = "1", features = ["derive"] }
thiserror = "1"
libloading = "0.8"
windows = { version = "*", features = ["Win32_Devices_ImageAcquisition", "Win32_System_Com", "Win32_Foundation"] }
objc = "0.2"
objc2-image-capture-core = "*"
image-capture-core = "*"
