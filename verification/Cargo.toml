[package]
name = "vaultpipe"
version = "0.1.0"
edition = "2021"
publish = false

[dependencies]
base64 = "0.22"
crypto_box = { version = "0.9", features = ["std"] }
serde = { version = "1", features = ["derive"] }
serde_json = "1"
kdl = "6"
xdg = "3"
dotenvy = "0.15"
keyring = "3"
miette = "7"
clap = { version = "4", features = ["derive"] }
portable-pty = "0.9"
terminal_size = "0.4"
tokio = { version = "1", features = ["macros", "rt-multi-thread"] }
tracing = "0.1"
tracing-subscriber = { version = "0.3", features = ["env-filter"] }
