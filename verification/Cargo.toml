[package]
name = "panel_client"
version = "0.1.0"
edition = "2021"
publish = false

[dependencies]
vertigo = "*"
serde_json = "1"
log = "0.4"
