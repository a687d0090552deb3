[package]
name = "chromebook_charge"
version = "0.1.0"
edition = "2021"
publish = false

[dependencies]
toml = "*"
tokio = { version = "*", features = ["full"] }
async-process = "*"
chrono = "*"
humantime = "*"
ms-converter = "*"
anyhow = "*"
clap = { version = "*", features = ["derive"] }
starship-battery = "*"
battery = "*"
try-again = "*"
zbus = "*"
zbus_systemd = { version = "*", features = ["login1"] }
