[package]
name = "apigen"
version = "0.1.0"
edition = "2021"
publish = false

[dependencies]
oas3 = "*"
reqwest = { version = "*", default-features = false }
tokio = { version = "*", default-features = false, features = ["macros", "rt-multi-thread"] }
