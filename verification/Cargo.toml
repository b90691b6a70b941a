[package]
name = "kptui"
version = "0.19.0"
edition = "2021"
publish = false

[dependencies]
unicode-width = "*"
zeroize = "*"
keepass = { version = "*", features = ["save_kdbx4", "totp"] }
ratatui = "*"
crossterm = "*"
arboard = { version = "*", default-features = false }
chrono = "*"
csv = "*"
serde = { version = "*", features = ["derive"] }
serde_json = "*"
toml = "*"
anyhow = "*"
