[package]
name = "krugg_lcu"
version = "0.1.0"
edition = "2021"
publish = false

[dependencies]
base64ct = { version = "*", features = ["alloc"] }
reqwest = { version = "*", default-features = false, features = ["rustls-tls"] }
tokio = { version = "*", features = ["rt-multi-thread", "macros", "time", "sync", "signal", "process"] }
tokio-util = { version = "*", features = ["rt"] }
notify-debouncer-full = "*"
sysinfo = "*"
