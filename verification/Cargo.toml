[package]
name = "busy_nas"
version = "0.1.0"
edition = "2021"
publish = false

[dependencies]
chrono = { version = "0.4", features = ["serde"] }
clap = { version = "4", features = ["derive", "env"] }
directories = "*"
libc = "0.2"
serde = { version = "1", features = ["derive"] }
thiserror = "*"
toml = "*"
uuid = { version = "1", features = ["v4"] }
