[package]
name = "uperf"
version = "0.1.0"
edition = "2021"
publish = false

[dependencies]
anyhow = "1"
async-channel = "2"
evdev = "0.13"
futures-util = "0.3"
gtk4 = "*"
libadwaita = "*"
libc = "0.2"
rustix = { version = "1", features = ["fs", "process", "thread"] }
serde = { version = "1", features = ["derive"] }
serde_json = "1"
thiserror = "2"
tokio = { version = "1", features = ["fs", "macros", "rt", "rt-multi-thread", "signal", "sync", "time"] }
zbus = { version = "5", default-features = false, features = ["tokio"] }
