[package]
name = "rs_threads_board"
version = "0.1.0"
edition = "2021"
publish = false

[dependencies]
base64 = "=0.13.1"
chrono = { version = "=0.4.45", features = ["serde"] }
rust-crypto = "=0.2.36"
mysql = "=16.1.0"
rouille = "=3.6.2"
serde = "=1.0.229"
serde_derive = "=1.0.229"
serde_json = "=1.0.154"
