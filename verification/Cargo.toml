[package]
name = "teleprompter"
version = "0.1.0"
edition = "2021"
publish = false

[dependencies]
tokio = { version = "=1.53.2", features = ["rt-multi-thread", "macros", "sync", "time"] }
warp = { version = "=0.4.3", features = ["server", "websocket"] }
futures-util = "=0.3.34"
getopts = "=0.2.24"
