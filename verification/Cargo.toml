[package]
name = "action-pull-request-lock"
version = "2.1.0"
edition = "2021"
publish = false

[dependencies]
anyhow = "=1.0.104"
async-trait = "=0.1.92"
octocrab = "=0.47.1"
serde_json = "=1.0.154"
