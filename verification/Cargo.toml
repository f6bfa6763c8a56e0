[package]
name = "jackdaw"
version = "0.1.0"
edition = "2021"
publish = false

[dependencies]
lucide-icons = "*"
notify = "*"
serde = { version = "1", features = ["derive"] }
serde_json = "1"
