[package]
name = "trso_migrate"
version = "0.1.0"
edition = "2021"
publish = false

[dependencies]
libsql = "*"
tokio = { version = "*", features = ["macros", "rt-multi-thread"] }
