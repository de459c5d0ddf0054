[package]
name = "opaline"
version = "0.1.0"
edition = "2021"
publish = false

[dependencies]
colored = "*"
crossterm = "*"
dirs = "*"
parking_lot = "*"
ratatui-core = "*"
serde = { version = "*", features = ["derive"] }
thiserror = "*"
toml = "*"
