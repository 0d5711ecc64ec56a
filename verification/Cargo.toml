[package]
name = "fist"
version = "0.1.0"
edition = "2021"
publish = false

[dependencies]
indexmap = { version = "=2.14.2", features = ["serde"] }
base64 = "=0.22.1"
cli_boilerplate_automation = { version = "=0.8.1", features = ["bring", "serde"] }
ahash = "=0.8.12"
serde = { version = "=1.0.229", features = ["derive"] }
toml = { version = "=1.1.8", features = ["preserve_order"] }
ansi-to-tui = "*"
