[package]
name = "nie"
version = "0.1.0"
edition = "2021"
publish = false

[dependencies]
clap = { version = "4", features = ["derive"] }
clap_mangen = "0.2"
colored = "3"
serde_json = "1"
thiserror = "2"
xdg = "3"
