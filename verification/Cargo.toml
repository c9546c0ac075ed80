[package]
name = "winocr"
version = "0.1.0"
edition = "2021"
publish = false

[dependencies]
serde = { version = "=1.0.229", features = ["derive"] }
windows = { version = "=0.58.0", features = ["Foundation", "Foundation_Collections", "Globalization", "Graphics_Imaging", "Media_Ocr", "Storage", "Storage_Streams"] }
