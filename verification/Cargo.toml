[package]
name = "file_manager"
version = "0.3.1"
edition = "2021"
publish = false

[dependencies]
pinyin = "0.10"
uuid = { version = "1", features = ["v4"] }
serde = { version = "1", features = ["derive"] }
serde_json = "1"
tokio = { version = "1", features = ["rt-multi-thread", "fs", "sync", "time", "macros"] }
dirs = "5"
egui = { version = "0.27", default-features = false, features = ["default_fonts"] }
