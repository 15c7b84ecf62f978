[package]
name = "vanguard"
version = "0.1.0"
edition = "2021"
publish = false

[dependencies]
image = { version = "0.25", default-features = false, features = ["png"] }
egui = { version = "0.26", default-features = false, features = ["default_fonts"] }
nalgebra = "0.32"
rapier3d = "0.18"
tokio = { version = "1", features = ["rt-multi-thread", "sync"] }
tracing = "0.1"
tracing-subscriber = "0.3"
pollster = "0.3"
bytemuck = { version = "1", features = ["derive"] }
serde = { version = "1", features = ["derive"] }
