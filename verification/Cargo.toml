[package]
name = "carrot"
version = "0.1.0"
edition = "2021"
publish = false

[dependencies]
ash = "0.38"
dlopen-rs = "*"
elf_loader = "*"
rustix = { version = "1", features = ["fs", "mm", "net"] }
serde = { version = "1", features = ["derive"] }
serde_json = "1"
