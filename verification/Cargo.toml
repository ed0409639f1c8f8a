[package]
name = "zk_6358_runner"
version = "0.1.0"
edition = "2021"
publish = false

[dependencies]
plonky2 = "=0.2.2"
anyhow = "=1.0.104"
colored = "=2.2.0"
log = "=0.4.35"
itertools = "=0.15.0"
rustyline = "=19.0.0"
serde = { version = "=1.0.229", features = ["derive"] }
serde_json = "=1.0.154"
tokio = { version = "=1.54.1", features = ["macros", "rt-multi-thread"] }
