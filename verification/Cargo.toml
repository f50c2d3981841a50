[package]
name = "nebula"
version = "0.1.0"
edition = "2021"
publish = false

[dependencies]
chrono = "0.4"
glium = "*"
image = { version = "*", default-features = false, features = ["png"] }
reqwest = { version = "*", default-features = false, features = ["blocking"] }
serde = { version = "1", features = ["derive"] }
serde_json = "1"
uuid = { version = "1", features = ["v4"] }
winit = "*"
