[package]
name = "mekuri"
version = "0.1.0"
edition = "2021"
publish = false

[dependencies]
base64 = "0.22"
natord = "1"
serde = { version = "1", features = ["derive"] }
tempfile = "3"
trash = "*"
unrar = "*"
zip = "*"
