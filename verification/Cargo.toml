[package]
name = "text_embeddings_inference"
version = "0.1.0"
edition = "2021"
publish = false

[dependencies]
tokenizers = "*"
tokio = { version = "*", default-features = false, features = ["rt-multi-thread", "macros"] }
turso = "*"
