[package]
name = "gemini_search"
version = "0.1.0"
edition = "2021"
publish = false

[dependencies]
colored = "*"
clap = "*"
serde_json = "*"
reqwest = { version = "*", default-features = false, features = ["json"] }
tokio = { version = "*", features = ["macros", "rt-multi-thread"] }
