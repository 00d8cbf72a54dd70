[package]
name = "lyric_checker"
version = "0.1.0"
edition = "2021"
publish = false

[dependencies]
ttml_processor = "=0.2.2"
lyrics_helper_core = "=0.2.1"
anyhow = "=1.0.104"
chrono = "=0.4.45"
env_logger = "=0.11.11"
log = "=0.4.34"
reqwest = { version = "=0.13.5", default-features = false }
tokio = { version = "=1.53.2", features = ["rt-multi-thread", "macros"] }
serde = { version = "=1.0.229", features = ["derive"] }
serde_json = "=1.0.151"
