[package]
name = "explorer_kit"
version = "0.1.0"
edition = "2021"
publish = false

[dependencies]
rand = "=0.8.8"
base64 = "=0.22.1"
uuid = { version = "=1.29.1", features = ["v4"] }
axum = "=0.7.9"
tokio = { version = "=1.54.1", features = ["macros", "rt-multi-thread", "net"] }
serde = { version = "=1.0.229", features = ["derive"] }
serde_json = "=1.0.154"
once_cell = "=1.21.4"
tower-http = { version = "=0.5.2", features = ["cors"] }
tracing-subscriber = "=0.3.23"
reqwest = { version = "=0.12.28", default-features = false, features = ["json", "rustls-tls"] }
clap = { version = "=4.6.7", features = ["derive"] }
dotenvy = "=0.15.7"
anyhow = "=1.0.104"
candle-core = "=0.8.4"
candle-nn = "=0.8.4"
candle-transformers = "=0.8.4"
tokenizers = { version = "=0.21.4", default-features = false, features = ["onig"] }
hf-hub = { version = "=0.3.2", default-features = false, features = ["online"] }
diesel = { version = "2.2", features = ["postgres"] }
async-openai = "0.24"
tracing-chrome = "0.7"
