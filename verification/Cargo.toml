[package]
name = "fastgpt"
version = "0.1.0"
edition = "2021"
publish = false

[dependencies]
anyhow = "*"
clap = { version = "*", features = ["derive"] }
colored = "*"
dirs = "*"
html-escape = "*"
regex = "*"
reqwest = { version = "*", default-features = false, features = ["json"] }
rustyline = "*"
serde = { version = "*", features = ["derive"] }
serde_json = "*"
tokio = { version = "*", features = ["macros", "rt-multi-thread"] }
toml = "*"
uuid = { version = "*", features = ["v4"] }
