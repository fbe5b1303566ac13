[package]
name = "revset_explain"
version = "0.1.0"
edition = "2021"
publish = false

[dependencies]
anyhow = "1"
async-trait = "0.1"
chrono = "=0.4.45"
clap = { version = "4", features = ["derive"] }
clap_complete = { version = "4", features = ["unstable-dynamic"] }
colored = "=3.1.1"
dunce = "1"
futures = "0.3"
indexmap = "=2.14.2"
itertools = "=0.15.0"
jj-cli = { version = "=0.37.0", default-features = false }
jj-lib = { version = "=0.37.0", default-features = false }
tokio = "1"
