[package]
name = "astral_llm_application"
version = "0.1.0"
edition = "2021"
publish = false

[dependencies]
serde_json = "=1.0.154"
chrono = "=0.4.45"
sha2 = "=0.10.9"
hex = "=0.4.3"
regex = "1"
