[package]
name = "ctxmux"
version = "0.1.0"
edition = "2021"
publish = false

[dependencies]
futures-util = { version = "=0.3.34", features = ["sink"] }
portable-pty = "=0.9.0"
rustix = { version = "=1.1.6", features = ["event", "fs", "net", "pipe", "process", "stdio", "termios"] }
serde = { version = "=1.0.229", features = ["derive"] }
serde_json = "=1.0.154"
thiserror = "=2.0.21"
tokio = { version = "=1.54.1", features = ["io-util", "macros", "net", "process", "rt-multi-thread", "signal", "sync", "time"] }
tokio-util = { version = "=0.7.20", features = ["codec"] }
uuid = { version = "=1.29.0", features = ["serde", "v4"] }
