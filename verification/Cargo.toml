[package]
name = "tantivy-jieba"
version = "0.1.0"
edition = "2021"
publish = false

[dependencies]
jieba-rs = "=0.11.0"
lazy_static = "=1.5.1"
tantivy-tokenizer-api = "=0.7.0"

[dev-dependencies]
tantivy = "*"
