[package]
name = "winit_platform"
version = "0.1.0"
edition = "2021"
publish = false

[dependencies]
redox_syscall = "0.5"
serde = { version = "1", features = ["derive"] }
