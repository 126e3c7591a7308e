[package]
name = "openpon"
version = "0.1.0"
edition = "2021"
publish = false

[dependencies]
arrayvec = "0.7"
num = "0.4"
rand = "0.7"
sdl2 = { version = "0.34", features = ["image"] }
serde = { version = "1", features = ["derive"] }
serde_json = "1"
