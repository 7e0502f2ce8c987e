[package]
name = "gtasa_extractor"
version = "0.1.0"
edition = "2021"
publish = false

[dependencies]
neo4rs = "*"
tokio = { version = "1", features = ["macros", "rt-multi-thread"] }
