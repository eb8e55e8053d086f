[package]
name = "axon_tui"
version = "0.1.0"
edition = "2021"
publish = false

[dependencies]
chrono = { version = "0.4", default-features = false, features = ["clock", "std"] }
emojis = "*"
futures-util = "0.3"
image = { version = "0.25", default-features = false, features = ["png", "jpeg", "gif", "webp"] }
kamadak-exif = "*"
ratatui = { version = "*", default-features = false, features = ["crossterm"] }
ratatui-image = { version = "*", default-features = false, features = ["crossterm"] }
reqwest = { version = "0.12", default-features = false, features = ["json", "stream"] }
ruma = "*"
serde = { version = "1", features = ["derive"] }
serde_json = "1"
thiserror = "2"
tokio = { version = "1", features = ["macros", "rt-multi-thread", "sync", "time"] }
tokio-tungstenite = { version = "*", default-features = false, features = ["connect"] }
uuid = { version = "1", features = ["v4", "serde"] }
zeroize = "1"
