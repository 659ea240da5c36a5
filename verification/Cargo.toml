[package]
name = "unreal_doc"
version = "0.1.0"
edition = "2021"
publish = false

[dependencies]
clap = "3"
fs_extra = "1"
pest = "2"
pest_derive = "2"
regex = "1"
serde = { version = "1", features = ["derive"] }
serde_json = "1"
toml = "0.5"
