[package]
name = "roguelike"
version = "0.1.0"
edition = "2021"
publish = false

[dependencies]
arrayvec = "0.7"
chrono = "0.4"
godot = "0.2"
strum = { version = "0.26", features = ["derive"] }
