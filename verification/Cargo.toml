[package]
name = "data_harpoon"
version = "0.1.0"
edition = "2021"
publish = false

[dependencies]
serde_json = "=1.0.151"
serde = { version = "=1.0.229", features = ["derive"] }
datafusion = { version = "=55.1.0", default-features = false, features = ["sql", "string_expressions"] }
rmcp = { version = "=3.5.0", features = ["client", "server", "macros", "transport-child-process", "transport-io"] }
rig-core = { version = "=0.43.0", features = ["reqwest"] }
tokio = { version = "=1.53.2", features = ["rt-multi-thread", "macros", "process", "time", "io-util", "io-std", "sync"] }
clap = { version = "=4.6.7", features = ["derive"] }
dashmap = "=6.2.1"
futures = "=0.3.34"
log = "=0.4.34"
toml = "=1.1.6"
async-trait = "0.1"
