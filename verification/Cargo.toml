[package]
name = "markdown_workspace"
version = "0.1.0"
edition = "2021"
publish = false

[dependencies]
ammonia = "4"
log = "0.4"
pulldown-cmark = "0.13"
serde = { version = "1", features = ["derive"] }
serde_json = "1"
thiserror = "2"
tokio = { version = "1", features = ["fs"] }
