[package]
name = "opai"
version = "0.1.0"
edition = "2021"
publish = false

[dependencies]
clap = { version = "4", features = ["derive"] }
derive_more = { version = "2", features = ["display"] }
home = "0.5"
reqwest = { version = "0.12", features = ["json"] }
rust-ini = "0.21"
rustyline = "*"
serde = { version = "1", features = ["derive"] }
serde_with = "3"
tokio = { version = "1", features = ["macros", "rt-multi-thread"] }
