[package]
name = "kgui"
version = "0.1.0"
edition = "2021"
publish = false

[dependencies]
chrono = "0.4"
dashmap = "6"
once_cell = "1"
tokio = { version = "1", features = ["macros", "rt-multi-thread", "sync"] }
