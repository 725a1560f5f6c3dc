[package]
name = "gc_rs"
version = "0.1.0"
edition = "2021"
publish = false

[dependencies]
anyhow = "1"
chrono = "0.4"
clap = { version = "4", features = ["cargo"] }
colored = "2"
dirs = "5"
google-calendar3 = "5"
open = "5"
tokio = { version = "1", features = ["macros", "rt-multi-thread"] }
