[package]
name = "focus-launcher"
version = "0.1.0"
edition = "2021"
publish = false

[dependencies]
async-trait = "0.1"
base64 = "=0.22.1"
freedesktop-desktop-entry = { version = "=0.8.4", default-features = false }
log = "0.4"
openaction = "=2.8.0"
serde = { version = "1", features = ["derive"] }
serde_json = "1"
simplelog = "=0.12.2"
tokio = { version = "1", features = ["macros", "process", "rt-multi-thread"] }
thiserror = "2"
tux-icons = "=0.5.0"
zbus = "=5.19.0"
