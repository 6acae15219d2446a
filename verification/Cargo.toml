[package]
name = "recovery_tools"
version = "0.1.0"
edition = "2021"
publish = false

[dependencies]
anyhow = "=1.0.104"
base64 = "=0.23.1"
bech32 = "=0.12.0"
chia-protocol = "=0.36.1"
chia-puzzle-types = "=0.36.1"
chia-sdk-types = "=0.36.0"
chia-sha2 = "=0.36.1"
clap = { version = "=4.6.7", features = ["derive"] }
clvm-traits = "=0.36.1"
clvmr = "=0.16.4"
flate2 = "=1.1.10"
hex = "=0.4.3"
serde_json = "=1.0.151"
