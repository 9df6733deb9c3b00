[package]
name = "autoarc"
version = "0.1.0"
edition = "2021"
publish = false

[dependencies]
anyhow = "1"
chrono = "0.4"
clap = { version = "4", features = ["derive"] }
console = "*"
dotenvy = "0.15"
indicatif = "*"
infer = "*"
pathdiff = "0.2"
sevenz-rust2 = "*"
thiserror = "2"
tokio = { version = "1", features = ["macros", "rt-multi-thread", "sync"] }
tracing = "0.1"
tracing-subscriber = { version = "0.3", features = ["env-filter"] }
unrar = "*"
zip = "*"
