[package]
name = "kanban_boards"
version = "0.1.0"
edition = "2021"
publish = false

[dependencies]
chrono = "0.4"
serde = { version = "1", features = ["derive"] }
anyhow = "1"
sea-orm = { version = "1", default-features = false, features = ["macros"] }
tauri = { version = "2", default-features = false }
