[package]
name = "mc_gateway"
version = "0.1.0"
edition = "2021"
publish = false

[dependencies]
mc_protocol = "=2.4.0"
serde = { version = "1", features = ["derive"] }
serde_json = { version = "=1.0.154", features = ["raw_value"] }
serde_yaml = "=0.9.34"
snafu = "=0.9.2"
time = { version = "0.3", features = ["macros", "formatting"] }
tokio = { version = "=1.54.1", features = ["net", "rt-multi-thread", "time", "macros", "io-util"] }
tracing = "0.1"
tracing-subscriber = { version = "0.3", features = ["env-filter", "time"] }
uuid = { version = "=1.29.0", features = ["v4"] }
