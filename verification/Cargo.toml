[package]
name = "darkicewolf50_actix_setup"
version = "0.1.0"
edition = "2021"
publish = false

[dependencies]
unicode-normalization = "*"
actix-web = "*"
serde = { version = "*", features = ["derive"] }
serde_json = "*"
utoipa = "*"
