[package]
name = "fleet_query"
version = "0.1.0"
edition = "2021"
publish = false

[dependencies]
apollo-parser = "*"
ipnetwork = "*"
serde_json = "*"
serde = { version = "*", features = ["derive"] }
anyhow = "*"
clap = { version = "*", features = ["derive"] }
miette = { version = "*", features = ["fancy"] }
thiserror = "*"
reqwest = { version = "*", default-features = false }
tokio = { version = "*", features = ["macros", "rt-multi-thread", "process"] }
async-graphql = "*"
async-graphql-poem = "*"
poem = "*"
apollo-compiler = "0.11"
