[package]
name = "networkingirc"
version = "0.1.0"
edition = "2021"
publish = false

[dependencies]
tokio = { version = "=1.53.2", features = ["net", "io-util", "rt-multi-thread", "macros", "sync", "time"] }
structopt = "=0.3.26"
