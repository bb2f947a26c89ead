[package]
name = "sqltext"
version = "0.1.0"
edition = "2021"
publish = false

[dependencies]
rusqlite = { version = "=0.40.2", features = ["bundled"] }
hex = "=0.4.3"
regex = "=1.13.1"
chrono = "=0.4.45"
log = "=0.4.34"
simplelog = "=0.12.2"
termios = "=0.3.3"
arboard = "=3.6.1"
time = { version = "=0.3.55", features = ["macros"] }
