[package]
name = "oppenheimer"
version = "0.1.0"
edition = "2021"
publish = false

[dependencies]
confy = "*"
crossterm = "*"
markdown = "*"
ratatui = "*"
serde = "*"
serde_derive = "*"
textwrap = "*"
