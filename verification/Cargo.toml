[package]
name = "mongodbtui"
version = "0.1.0"
edition = "2021"
publish = false

[dependencies]
bson = "2"
serde_json = "1"
unicode-segmentation = "1"
unicode-width = "0.2"
mongodb = "3"
crossterm = "0.28"
ratatui = "0.29"
tokio = { version = "1", features = ["full"] }
futures = "0.3"
arboard = { version = "3", default-features = false }
dirs = "5"
edit = "0.1"
