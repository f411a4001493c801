[package]
name = "bank_es"
version = "0.1.0"
edition = "2021"
publish = false

[dependencies]
serde = { version = "1", features = ["derive"] }
serde_json = "1"
tokio = { version = "1", features = ["macros", "rt-multi-thread"] }
eventstore = "=2.3.0"
cqrs-es = "=0.2.5"
async-trait = "0.1"
