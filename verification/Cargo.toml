[package]
name = "hcdformat"
version = "1.0.0"
edition = "2021"
publish = false

[dependencies]
quick-xml = { version = "0.37", features = ["serialize"] }
serde = { version = "1", features = ["derive"] }
serde_json = "1"
thiserror = "2"
ureq = "3"
