[package]
name = "edaptor"
version = "0.1.0"
edition = "2021"
publish = false

[dependencies]
anyhow = "=1.0.104"
crossterm = "=0.29.0"
ratatui = "=0.30.2"
tui-prompts = "=0.6.8"
tui-tree-widget = "=0.24.1"
turbo-vision = "=1.2.0"
tvision-rs = "=0.18.0"
