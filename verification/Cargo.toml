[package]
name = "termi"
version = "0.1.0"
edition = "2021"
publish = false

[dependencies]
rustix = { version = "*", features = ["event", "termios", "fs", "stdio"] }
uuid = { version = "*", features = ["v4"] }
clap = { version = "*", features = ["derive"] }
crossterm = "*"

[dev-dependencies]
vtparse = "*"
