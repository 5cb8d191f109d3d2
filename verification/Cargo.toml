[package]
name = "news_summarizer"
version = "0.1.0"
edition = "2021"
publish = false

[dependencies]
chrono = "=0.4.45"
tiktoken-rs = "=0.12.1"
async-openai = { version = "=0.43.0", features = ["chat-completion"] }
diesel = { version = "=2.3.14", features = ["postgres", "chrono", "serde_json"] }
dotenvy = "=0.15.7"
newsdata-io-api = "=0.9.1"
reqwest = { version = "=0.13.5", features = ["json"] }
serde = { version = "=1.0.229", features = ["derive"] }
serde_json = "=1.0.154"
rocket = "=0.5.2"
