[package]
name = "mod_manager"
version = "0.1.0"
edition = "2021"
publish = false

[dependencies]
clap = { version = "*", features = ["derive"] }
open = "*"
rustix = { version = "*", features = ["process"] }
serde = { version = "*", features = ["derive"] }
toml = "*"
xdg = "*"
