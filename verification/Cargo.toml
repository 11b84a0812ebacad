[package]
name = "create_systemd_service"
version = "0.1.0"
edition = "2021"
publish = false

[dependencies]
crossterm = "0.25"
tui = "0.19"
dialoguer = "0.10"
directories = "4"
nix = { version = "0.26", default-features = false, features = ["user"] }
