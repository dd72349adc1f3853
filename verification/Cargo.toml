[package]
name = "nelfie"
version = "0.1.0"
edition = "2021"
publish = false

[dependencies]
regex = "=1.13.1"
chrono = "=0.4.45"
chrono-tz = "=0.10.4"
serde_json = "=1.0.154"
serde = { version = "=1.0.229", features = ["derive"] }
tokio = { version = "=1.54.1", features = ["macros", "rt-multi-thread", "sync", "time", "signal"] }
serenity = "=0.12.5"
poise = "=0.6.2"
dashmap = "=6.2.1"
log = "=0.4.35"
reqwest = { version = "=0.12.28", features = ["json"] }
async-openai = { version = "=0.43.0", features = ["responses", "chat-completion"] }
async-trait = "=0.1.92"
anyhow = "=1.0.104"
base64 = "=0.22.1"
once_cell = "=1.21.4"
