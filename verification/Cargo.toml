[package]
name = "ssh_list"
version = "0.1.0"
edition = "2021"
publish = false

[dependencies]
glob = "*"
shlex = "*"
ratatui = "*"
crossterm = "*"
tui-input = "*"
serde = { version = "*", features = ["derive"] }
serde_json = "*"
toml = "*"
