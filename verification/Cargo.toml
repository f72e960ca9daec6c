[package]
name = "material_icon_browser"
version = "0.1.0"
edition = "2021"
publish = false

[dependencies]
serde_json = "1"
iced = { version = "0.10", default-features = false, features = ["advanced", "tokio"] }
