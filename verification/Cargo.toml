[package]
name = "noir_debugger"
version = "0.1.0"
edition = "2021"
publish = false

[dependencies]
acvm = "0.46.0"
bn254_blackbox_solver = "0.46.0"
base64 = "0.21.7"
flate2 = "1"
regex = "1"
serde = { version = "1", features = ["derive"] }
serde_json = "1"
thiserror = "1"
clap = { version = "4", features = ["derive"] }
easy-repl = "0.2.1"
termcolor = "1"
owo-colors = "4"
