[package]
name = "whoami_diag"
version = "0.1.0"
edition = "2021"
publish = false

[dependencies]
serde_json = "1"
json_to_table = "*"
hyper = { version = "0.14", features = ["server", "http1", "tcp"] }
tokio = { version = "1", features = ["rt-multi-thread", "macros", "net", "time", "sync"] }
sysinfo = { version = "0.29", features = ["serde"] }
