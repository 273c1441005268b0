[package]
name = "docker_manager"
version = "0.1.0"
edition = "2021"
publish = false

[dependencies]
crossbeam-channel = "0.5"
crossterm = "0.27"
notify = "6"
ratatui = "0.26"
walkdir = "2"
