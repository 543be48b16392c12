[package]
name = "reliable_udp"
version = "0.1.0"
edition = "2021"
publish = false

[dependencies]
clap = "4"
rand = "0.8"
tokio = { version = "1", features = ["macros", "rt-multi-thread", "net", "time"] }
