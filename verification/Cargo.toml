[package]
name = "container_panel"
version = "0.1.0"
edition = "2021"
publish = false

[dependencies]
owo-colors = "4"
zellij-tile = "*"
