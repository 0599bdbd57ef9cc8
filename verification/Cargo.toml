[package]
name = "trasher"
version = "0.1.0"
edition = "2021"
publish = false

[dependencies]
anyhow = "1"
base64 = "*"
clap = { version = "4", features = ["derive"] }
colored = "*"
comfy-table = "*"
crossterm = "*"
dirs = "*"
fs_extra = "1"
indicatif = "*"
jiff = "*"
log = "0.4"
mountpoints = "*"
ratatui = "*"
tui-input = "*"
walkdir = "2"
