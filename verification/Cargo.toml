[package]
name = "djinn"
version = "0.1.0"
edition = "2021"
publish = false

[dependencies]
clap = "2.33"
figment = { version = "0.10", features = ["toml"] }
nix = "0.19"
serde = { version = "1", features = ["derive"] }
sysinfo = "0.15"
