[package]
name = "worktrunk"
version = "0.1.0"
edition = "2021"
publish = false

[dependencies]
minijinja = "*"
shell-escape = "*"
serde = { version = "*", features = ["derive"] }
serde_json = "*"
rayon = "*"
