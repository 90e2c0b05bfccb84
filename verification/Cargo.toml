[package]
name = "governance_bot"
version = "0.1.0"
edition = "2021"
publish = false

[dependencies]
ic-cdk = "0.5"
ic-cdk-macros = "0.5"
