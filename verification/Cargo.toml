[package]
name = "survey_store"
version = "0.1.0"
edition = "2021"
publish = false

[dependencies]
actix-web = { version = "*", default-features = false, features = ["macros"] }
config = { version = "*", default-features = false, features = ["toml"] }
geoutils = "*"
serde = { version = "*", features = ["derive"] }
