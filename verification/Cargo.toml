[package]
name = "deptty"
version = "0.1.0"
edition = "2021"
publish = false

[dependencies]
alacritty_terminal = "=0.26.0"
dirs = "6"
libc = "0.2"
portable-pty = "=0.9.0"
rust-i18n = "3"
serde = { version = "1", features = ["derive"] }
toml = "0.8"
