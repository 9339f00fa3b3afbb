[package]
name = "psycho_killer"
version = "0.1.0"
edition = "2021"
publish = false

[dependencies]
anyhow = "1"
crossterm = "0.28"
itertools = "0.13"
libc = "0.2"
ratatui = "0.29"
signal-hook = "0.3"
sysinfo = "0.29"
textwrap = "0.16"
