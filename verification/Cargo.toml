[package]
name = "bash-pinyin-completion-rs"
version = "0.1.0"
edition = "2021"
publish = false

[dependencies]
ib-matcher = { version = "*", features = ["pinyin", "romaji"] }
