[package]
name = "vote_relay"
version = "0.1.0"
edition = "2021"
publish = false

[dependencies]
candid = "*"
futures = "*"
ic-cdk = "*"
ic-cdk-timers = "*"
ic_principal = "*"
ic-stable-structures = "*"
rmp-serde = "*"
serde = { version = "*", features = ["derive"] }
