[package]
name = "ranami-wallpapers"
version = "0.3.0"
edition = "2021"
publish = false

[dependencies]
serde = { version = "1", features = ["derive"] }
serde_json = "1"
tokio = { version = "1", features = ["rt-multi-thread", "net", "io-util", "time"] }
image = { version = "*", default-features = false, features = ["jpeg", "png"] }
screen_size = "*"
rfd = "*"
tao = "*"
tray-icon = "*"
